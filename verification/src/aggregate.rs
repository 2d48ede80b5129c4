//! Aggregation of one streamed turn.
//!
//! A [`TurnAggregator`] consumes the turn's [`StreamEvent`]s in arrival order:
//! text deltas are concatenated into one text block, per-id tool-use argument
//! fragments are buffered and become a `ToolUse` block only once their
//! completion marker arrives, and usage reports are summed. Finishing with a
//! tool use still open is a protocol error — an unterminated tool call cannot
//! be safely dispatched — never a silently dropped block.

use vstd::prelude::*;
use crate::model::{
    ApiError, ApiErrorView, ApiResult, BlockView, ContentBlock, EventView, StreamEvent, Usage,
    sat_add, saturating_add_u64,
};

verus! {

/// A tool invocation whose argument fragments are still arriving.
pub struct PendingTool {
    pub id: String,
    pub name: String,
    pub input: String,
}

/// Mathematical view of a [`PendingTool`].
#[verifier::ext_equal]
pub struct PendingView {
    pub id: Seq<char>,
    pub name: Seq<char>,
    pub input: Seq<char>,
}

impl View for PendingTool {
    type V = PendingView;

    open spec fn view(&self) -> PendingView {
        PendingView { id: self.id@, name: self.name@, input: self.input@ }
    }
}

/// Mathematical state of the aggregation of one turn.
#[verifier::ext_equal]
pub struct AggView {
    /// Every text delta so far, concatenated in arrival order.
    pub text: Seq<char>,
    /// Tool invocations started and not yet completed, in start order.
    pub pending: Seq<PendingView>,
    /// Completed `ToolUse` blocks, in completion order.
    pub tools: Seq<BlockView>,
    /// Input tokens reported so far.
    pub usage_in: u64,
    /// Output tokens reported so far.
    pub usage_out: u64,
}

/// The state before any event of the turn has arrived.
pub open spec fn agg_init() -> AggView {
    AggView {
        text: Seq::empty(),
        pending: Seq::empty(),
        tools: Seq::empty(),
        usage_in: 0,
        usage_out: 0,
    }
}

/// The index of the pending invocation with this id, or -1 when none is open.
pub open spec fn find_pending(p: Seq<PendingView>, id: Seq<char>) -> int
    decreases p.len(),
{
    if p.len() == 0 {
        -1
    } else if p.first().id == id {
        0
    } else {
        let r = find_pending(p.drop_first(), id);
        if r == -1 {
            -1
        } else {
            r + 1
        }
    }
}

/// `find_pending` returns -1 exactly when no open invocation has the id, and
/// otherwise the first index that does.
pub proof fn lemma_find_pending(p: Seq<PendingView>, id: Seq<char>)
    ensures
        (find_pending(p, id) == -1) <==> (forall|k: int| 0 <= k < p.len() ==> p[k].id != id),
        find_pending(p, id) != -1 ==> 0 <= find_pending(p, id) < p.len() && p[find_pending(
            p,
            id,
        )].id == id && (forall|k: int| 0 <= k < find_pending(p, id) ==> p[k].id != id),
    decreases p.len(),
{
    if p.len() == 0 {
    } else if p.first().id == id {
    } else {
        lemma_find_pending(p.drop_first(), id);
        assert(forall|k: int| 1 <= k < p.len() ==> p[k] == p.drop_first()[k - 1]);
    }
}

/// How one stream event changes the aggregation state. A start for an id
/// already open, a fragment for an id never started and a completion marker
/// for an id not open are ignored; `Done` and `Error` leave the state to the
/// caller, who finishes or fails the turn.
pub open spec fn agg_step(m: AggView, e: EventView) -> AggView {
    match e {
        EventView::TextDelta { text } => AggView { text: m.text + text, ..m },
        EventView::ToolUseStart { id, name } => {
            if find_pending(m.pending, id) == -1 {
                AggView {
                    pending: m.pending.push(PendingView { id, name, input: Seq::empty() }),
                    ..m
                }
            } else {
                m
            }
        },
        EventView::ToolUseDelta { id, partial_input } => {
            let j = find_pending(m.pending, id);
            if j == -1 {
                m
            } else {
                let p = m.pending[j];
                AggView {
                    pending: m.pending.update(
                        j,
                        PendingView { input: p.input + partial_input, ..p },
                    ),
                    ..m
                }
            }
        },
        EventView::ToolUseComplete { id } => {
            let j = find_pending(m.pending, id);
            if j == -1 {
                m
            } else {
                let p = m.pending[j];
                AggView {
                    pending: m.pending.remove(j),
                    tools: m.tools.push(
                        BlockView::ToolUse { id: p.id, name: p.name, input: p.input },
                    ),
                    ..m
                }
            }
        },
        EventView::Usage { input_tokens, output_tokens } => AggView {
            usage_in: sat_add(m.usage_in, input_tokens),
            usage_out: sat_add(m.usage_out, output_tokens),
            ..m
        },
        EventView::Error { .. } => m,
        EventView::Done => m,
    }
}

/// The state after a whole sequence of events, in order.
pub open spec fn agg_run(m: AggView, evs: Seq<EventView>) -> AggView
    decreases evs.len(),
{
    if evs.len() == 0 {
        m
    } else {
        agg_run(agg_step(m, evs.first()), evs.drop_first())
    }
}

/// Running a concatenation of event sequences runs them one after the other.
pub proof fn lemma_agg_run_concat(m: AggView, a: Seq<EventView>, b: Seq<EventView>)
    ensures
        agg_run(m, a + b) == agg_run(agg_run(m, a), b),
    decreases a.len(),
{
    if a.len() == 0 {
        assert(a + b =~= b);
    } else {
        assert((a + b).first() == a.first());
        assert((a + b).drop_first() =~= a.drop_first() + b);
        lemma_agg_run_concat(agg_step(m, a.first()), a.drop_first(), b);
    }
}

/// Appending one event to a run applies one more step.
pub proof fn lemma_agg_run_snoc(m: AggView, s: Seq<EventView>, e: EventView)
    ensures
        agg_run(m, s.push(e)) == agg_step(agg_run(m, s), e),
{
    assert(s.push(e) =~= s + seq![e]);
    lemma_agg_run_concat(m, s, seq![e]);
    assert(seq![e].first() == e);
    assert(seq![e].drop_first() =~= Seq::<EventView>::empty());
    assert(agg_run(agg_run(m, s), seq![e]) == agg_step(agg_run(m, s), e)) by {
        reveal_with_fuel(agg_run, 2);
    }
}

/// Some open invocation carries this id.
pub open spec fn pending_has(p: Seq<PendingView>, id: Seq<char>) -> bool {
    exists|k: int| 0 <= k < p.len() && p[k].id == id
}

/// Some completed `ToolUse` block carries this id.
pub open spec fn tools_has(t: Seq<BlockView>, id: Seq<char>) -> bool {
    exists|k: int|
        0 <= k < t.len() && (#[trigger] t[k] matches BlockView::ToolUse { id: tid, .. } && tid
            == id)
}

/// While an id was never started, no step opens it and no step emits a
/// `ToolUse` block with it.
pub proof fn lemma_step_absent(m: AggView, e: EventView, id: Seq<char>)
    requires
        !pending_has(m.pending, id),
        !tools_has(m.tools, id),
        e matches EventView::ToolUseStart { id: sid, .. } ==> sid != id,
    ensures
        !pending_has(agg_step(m, e).pending, id),
        !tools_has(agg_step(m, e).tools, id),
{
    let m2 = agg_step(m, e);
    match e {
        EventView::ToolUseStart { id: sid, name } => {
            assert(forall|k: int|
                0 <= k < m2.pending.len() ==> m2.pending[k].id != id) by {
                lemma_find_pending(m.pending, sid);
            }
        },
        EventView::ToolUseDelta { id: did, partial_input } => {
            let j = find_pending(m.pending, did);
            if j != -1 {
                lemma_find_pending(m.pending, did);
                assert(forall|k: int| 0 <= k < m2.pending.len() ==> m2.pending[k].id
                    == m.pending[k].id);
            }
        },
        EventView::ToolUseComplete { id: cid } => {
            let j = find_pending(m.pending, cid);
            if j != -1 {
                lemma_find_pending(m.pending, cid);
                assert(m.pending[j].id == cid);
                assert(cid != id);
                assert(forall|k: int| 0 <= k < m2.pending.len() ==> (m2.pending[k] == m.pending[k]
                    || m2.pending[k] == m.pending[k + 1]));
            }
        },
        _ => {},
    }
}

/// While an id is open and no completion marker for it arrives, it stays open
/// and no `ToolUse` block with it is emitted.
pub proof fn lemma_step_pending(m: AggView, e: EventView, id: Seq<char>)
    requires
        pending_has(m.pending, id),
        !tools_has(m.tools, id),
        e matches EventView::ToolUseComplete { id: cid } ==> cid != id,
    ensures
        pending_has(agg_step(m, e).pending, id),
        !tools_has(agg_step(m, e).tools, id),
{
    let m2 = agg_step(m, e);
    let w = choose|k: int| 0 <= k < m.pending.len() && m.pending[k].id == id;
    match e {
        EventView::ToolUseStart { id: sid, name } => {
            if find_pending(m.pending, sid) == -1 {
                assert(m2.pending[w].id == id);
            }
        },
        EventView::ToolUseDelta { id: did, partial_input } => {
            let j = find_pending(m.pending, did);
            if j != -1 {
                lemma_find_pending(m.pending, did);
                assert(m2.pending[w].id == id);
            }
        },
        EventView::ToolUseComplete { id: cid } => {
            let j = find_pending(m.pending, cid);
            if j != -1 {
                lemma_find_pending(m.pending, cid);
                assert(m.pending[j].id == cid);
                assert(j != w);
                if w < j {
                    assert(m2.pending[w].id == id);
                } else {
                    assert(m2.pending[w - 1] == m.pending[w]);
                    assert(m2.pending[w - 1].id == id);
                }
            }
        },
        _ => {},
    }
}

/// [`lemma_step_absent`], extended over a whole event sequence.
pub proof fn lemma_run_absent(m: AggView, evs: Seq<EventView>, id: Seq<char>)
    requires
        !pending_has(m.pending, id),
        !tools_has(m.tools, id),
        forall|j: int|
            0 <= j < evs.len() ==> (#[trigger] evs[j] matches EventView::ToolUseStart {
                id: sid,
                ..
            } ==> sid != id),
    ensures
        !pending_has(agg_run(m, evs).pending, id),
        !tools_has(agg_run(m, evs).tools, id),
    decreases evs.len(),
{
    if evs.len() > 0 {
        assert(evs[0] == evs.first());
        lemma_step_absent(m, evs.first(), id);
        assert(forall|j: int| 0 <= j < evs.drop_first().len() ==> evs.drop_first()[j] == evs[j
            + 1]);
        lemma_run_absent(agg_step(m, evs.first()), evs.drop_first(), id);
    }
}

/// [`lemma_step_pending`], extended over a whole event sequence.
pub proof fn lemma_run_pending(m: AggView, evs: Seq<EventView>, id: Seq<char>)
    requires
        pending_has(m.pending, id),
        !tools_has(m.tools, id),
        forall|j: int|
            0 <= j < evs.len() ==> (#[trigger] evs[j] matches EventView::ToolUseComplete {
                id: cid,
            } ==> cid != id),
    ensures
        pending_has(agg_run(m, evs).pending, id),
        !tools_has(agg_run(m, evs).tools, id),
    decreases evs.len(),
{
    if evs.len() > 0 {
        assert(evs[0] == evs.first());
        lemma_step_pending(m, evs.first(), id);
        assert(forall|j: int| 0 <= j < evs.drop_first().len() ==> evs.drop_first()[j] == evs[j
            + 1]);
        lemma_run_pending(agg_step(m, evs.first()), evs.drop_first(), id);
    }
}

/// A stream that starts a tool use whose id never sees a completion marker
/// leaves that invocation open at the end of the turn — so finishing the
/// aggregation yields a protocol error — and never emits a `ToolUse` block
/// with that id.
pub proof fn lemma_unterminated_tool_use(
    evs: Seq<EventView>,
    i: int,
    id: Seq<char>,
    name: Seq<char>,
)
    requires
        0 <= i < evs.len(),
        evs[i] == (EventView::ToolUseStart { id, name }),
        forall|j: int|
            i < j < evs.len() ==> (#[trigger] evs[j] matches EventView::ToolUseComplete {
                id: cid,
            } ==> cid != id),
        forall|j: int|
            0 <= j < i ==> (#[trigger] evs[j] matches EventView::ToolUseStart { id: sid, .. }
                ==> sid != id),
    ensures
        agg_run(agg_init(), evs).pending.len() > 0,
        !tools_has(agg_run(agg_init(), evs).tools, id),
{
    let pre = evs.take(i);
    let post = evs.skip(i + 1);
    assert(evs =~= pre + (seq![evs[i]] + post));
    lemma_agg_run_concat(agg_init(), pre, seq![evs[i]] + post);
    let m1 = agg_run(agg_init(), pre);
    lemma_run_absent(agg_init(), pre, id);
    lemma_agg_run_concat(m1, seq![evs[i]], post);
    assert(seq![evs[i]].first() == evs[i]);
    assert(seq![evs[i]].drop_first() =~= Seq::<EventView>::empty());
    let m2 = agg_run(m1, seq![evs[i]]);
    assert(m2 == agg_step(m1, evs[i])) by {
        reveal_with_fuel(agg_run, 2);
    }
    lemma_find_pending(m1.pending, id);
    assert(find_pending(m1.pending, id) == -1);
    assert(m2.pending == m1.pending.push(PendingView { id, name, input: Seq::empty() }));
    assert(m2.pending[m2.pending.len() - 1].id == id);
    assert(pending_has(m2.pending, id));
    assert(m2.tools == m1.tools);
    assert(forall|j: int| 0 <= j < post.len() ==> post[j] == evs[i + 1 + j]);
    lemma_run_pending(m2, post, id);
    let mf = agg_run(m2, post);
    assert(agg_run(agg_init(), evs) == mf);
    assert(pending_has(mf.pending, id));
}

/// For every byte-chunk fragmentation of a streamed turn, the aggregated
/// state — the turn's text, tool blocks and usage — equals that of
/// aggregating the unfragmented stream.
pub proof fn lemma_fragmentation_aggregate(cur: Seq<u8>, chunks: Seq<Seq<u8>>)
    ensures
        agg_run(
            agg_init(),
            crate::decode::events_of_lines(crate::decode::decoded_lines(cur, chunks)),
        ) == agg_run(
            agg_init(),
            crate::decode::events_of_lines(
                crate::decode::complete_lines(cur, chunks.flatten()),
            ),
        ),
{
    crate::decode::lemma_fragmentation_events(cur, chunks);
}

/// Aggregates the stream events of one turn into its content blocks and
/// usage, exactly as [`agg_step`] states, event by event.
pub struct TurnAggregator {
    text: String,
    pending: Vec<PendingTool>,
    tools: Vec<ContentBlock>,
    usage_in: u64,
    usage_out: u64,
}

impl View for TurnAggregator {
    type V = AggView;

    closed spec fn view(&self) -> AggView {
        AggView {
            text: self.text@,
            pending: self.pending@.map_values(|p: PendingTool| p@),
            tools: self.tools@.map_values(|b: ContentBlock| b@),
            usage_in: self.usage_in,
            usage_out: self.usage_out,
        }
    }
}

impl TurnAggregator {
    /// A fresh aggregation, before any event of the turn.
    pub fn new() -> (r: TurnAggregator)
        ensures
            r@ == agg_init(),
    {
        let r = TurnAggregator {
            text: String::new(),
            pending: Vec::new(),
            tools: Vec::new(),
            usage_in: 0,
            usage_out: 0,
        };
        proof {
            assert(r@ =~~= agg_init());
        }
        r
    }

    /// The index of the open invocation with this id, when one exists.
    fn find_slot(&self, id: &String) -> (r: Option<usize>)
        ensures
            r matches Some(j) ==> j == find_pending(self@.pending, id@) && j
                < self.pending@.len(),
            r is None ==> find_pending(self@.pending, id@) == -1,
    {
        let ghost pv = self@.pending;
        proof {
            lemma_find_pending(pv, id@);
        }
        let mut i: usize = 0;
        while i < self.pending.len()
            invariant
                i <= self.pending.len(),
                pv == self@.pending,
                forall|k: int| 0 <= k < i ==> pv[k].id != id@,
            decreases self.pending.len() - i,
        {
            if self.pending[i].id == *id {
                proof {
                    lemma_find_pending(pv, id@);
                    assert(pv[i as int].id == id@);
                    let f = find_pending(pv, id@);
                    if f == -1 {
                        assert(pv[i as int].id != id@);
                    } else if f < i as int {
                        assert(pv[f].id == id@);
                    } else if f > i as int {
                        assert(pv[i as int].id != id@);
                    }
                    assert(f == i as int);
                }
                return Some(i);
            }
            i = i + 1;
        }
        None
    }

    /// Applies one stream event to the aggregation.
    pub fn push_event(&mut self, e: &StreamEvent) -> (nothing: ())
        ensures
            final(self)@ == agg_step(old(self)@, e@),
    {
        let ghost m = old(self)@;
        match e {
            StreamEvent::TextDelta { text } => {
                self.text.append(text.as_str());
                proof {
                    assert(self@ =~~= agg_step(m, EventView::TextDelta { text: text@ }));
                }
            },
            StreamEvent::ToolUseStart { id, name } => {
                let ghost idv = id@;
                let ghost namev = name@;
                match self.find_slot(id) {
                    Some(_) => {
                        proof {
                            assert(self@ =~~= agg_step(
                                m,
                                EventView::ToolUseStart { id: idv, name: namev },
                            ));
                        }
                    },
                    None => {
                        self.pending.push(
                            PendingTool { id: id.clone(), name: name.clone(), input: String::new() },
                        );
                        proof {
                            assert(self@.pending =~~= m.pending.push(
                                (PendingView { id: idv, name: namev, input: Seq::empty() }),
                            ));
                            assert(self@ =~~= agg_step(
                                m,
                                EventView::ToolUseStart { id: idv, name: namev },
                            ));
                        }
                    },
                }
            },
            StreamEvent::ToolUseDelta { id, partial_input } => {
                let ghost idv = id@;
                let ghost partv = partial_input@;
                match self.find_slot(id) {
                    Some(j) => {
                        let ghost oldpend = self.pending@;
                        let mut p = self.pending.remove(j);
                        p.input.append(partial_input.as_str());
                        self.pending.insert(j, p);
                        proof {
                            let jj = j as int;
                            let pv = m.pending[jj];
                            assert(self.pending@ =~= oldpend.update(jj, p));
                            assert(p@ == (PendingView { input: pv.input + partv, ..pv }));
                            assert(self@.pending =~~= m.pending.update(
                                jj,
                                (PendingView { input: pv.input + partv, ..pv }),
                            ));
                            assert(self@ =~~= agg_step(
                                m,
                                EventView::ToolUseDelta { id: idv, partial_input: partv },
                            ));
                        }
                    },
                    None => {
                        proof {
                            assert(self@ =~~= agg_step(
                                m,
                                EventView::ToolUseDelta { id: idv, partial_input: partv },
                            ));
                        }
                    },
                }
            },
            StreamEvent::ToolUseComplete { id } => {
                let ghost idv = id@;
                match self.find_slot(id) {
                    Some(j) => {
                        let p = self.pending.remove(j);
                        self.tools.push(
                            ContentBlock::ToolUse { id: p.id, name: p.name, input: p.input },
                        );
                        proof {
                            let jj = j as int;
                            let pv = m.pending[jj];
                            assert(p@ == pv);
                            assert(self@.pending =~~= m.pending.remove(jj));
                            assert(self@.tools =~~= m.tools.push(
                                (BlockView::ToolUse { id: pv.id, name: pv.name, input: pv.input }),
                            ));
                            assert(self@ =~~= agg_step(m, EventView::ToolUseComplete { id: idv }));
                        }
                    },
                    None => {
                        proof {
                            assert(self@ =~~= agg_step(m, EventView::ToolUseComplete { id: idv }));
                        }
                    },
                }
            },
            StreamEvent::Usage { input_tokens, output_tokens } => {
                self.usage_in = saturating_add_u64(self.usage_in, *input_tokens);
                self.usage_out = saturating_add_u64(self.usage_out, *output_tokens);
                proof {
                    assert(self@ =~~= agg_step(
                        m,
                        EventView::Usage {
                            input_tokens: *input_tokens,
                            output_tokens: *output_tokens,
                        },
                    ));
                }
            },
            StreamEvent::Error { message } => {
                proof {
                    assert(self@ =~~= agg_step(m, EventView::Error { message: message@ }));
                }
            },
            StreamEvent::Done => {
                proof {
                    assert(self@ =~~= agg_step(m, EventView::Done));
                }
            },
        }
    }

    /// Closes the turn. With no tool use left open, the content is one text
    /// block holding the concatenated deltas followed by the completed
    /// `ToolUse` blocks in completion order, with the summed usage. With one
    /// still open the turn is a protocol error and emits nothing.
    pub fn finish(self) -> (r: Result<ApiResult, ApiError>)
        ensures
            self@.pending.len() == 0 ==> (r matches Ok(a) && a@.content == seq![
                BlockView::Text { text: self@.text },
            ] + self@.tools && a@.usage.input_tokens == self@.usage_in && a@.usage.output_tokens
                == self@.usage_out && a@.usage.cache_creation_input_tokens == 0
                && a@.usage.cache_read_input_tokens == 0),
            self@.pending.len() != 0 ==> (r matches Err(e) && e@ matches ApiErrorView::Protocol {
                message,
            } && message.len() > 0),
    {
        let ghost m = self@;
        let TurnAggregator { text, pending, mut tools, usage_in, usage_out } = self;
        if pending.len() != 0 {
            let msg = String::from_str("unterminated tool use: the stream ended without its completion marker");
            proof {
                reveal_strlit(
                    "unterminated tool use: the stream ended without its completion marker",
                );
            }
            return Err(ApiError::Protocol { message: msg });
        }
        let mut content: Vec<ContentBlock> = Vec::new();
        content.push(ContentBlock::Text { text });
        content.append(&mut tools);
        let usage = Usage {
            input_tokens: usage_in,
            output_tokens: usage_out,
            cache_creation_input_tokens: 0,
            cache_read_input_tokens: 0,
        };
        let r = ApiResult { content, usage };
        proof {
            assert(r@.content =~= seq![BlockView::Text { text: m.text }] + m.tools);
        }
        Ok(r)
    }
}

} // verus!
