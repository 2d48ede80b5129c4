//! The provider client's streaming core: one turn, from raw network bytes to
//! its aggregate.
//!
//! A [`TurnStream`] couples the line decoder with the turn aggregator. Each
//! network chunk yields the newly decoded events — for live rendering — and
//! folds them into the aggregation; the chunk boundaries cannot change what
//! is decoded or aggregated (see [`crate::aggregate::lemma_fragmentation_aggregate`]).

use vstd::prelude::*;
use crate::aggregate::{
    agg_init, agg_run, lemma_agg_run_snoc, AggView, TurnAggregator,
};
use crate::decode::{
    complete_lines, decode_lines, events_of_lines, line_rest, LineDecoder,
};
use crate::model::{ApiError, ApiErrorView, ApiResult, BlockView, EventView, StreamEvent};

verus! {

/// Mathematical state of one streamed turn.
#[verifier::ext_equal]
pub struct TurnStreamView {
    /// The partial trailing line, held until its newline arrives.
    pub rest: Seq<u8>,
    /// The aggregation of every event decoded so far.
    pub agg: AggView,
    /// Whether the terminal frame has been seen.
    pub done: bool,
}

/// Whether the events contain the terminal marker.
pub open spec fn contains_done(evs: Seq<EventView>) -> bool {
    exists|k: int| 0 <= k < evs.len() && evs[k] == EventView::Done
}

/// Decodes and aggregates one streamed turn, chunk by chunk.
pub struct TurnStream {
    decoder: LineDecoder,
    aggregator: TurnAggregator,
    done: bool,
}

impl View for TurnStream {
    type V = TurnStreamView;

    closed spec fn view(&self) -> TurnStreamView {
        TurnStreamView { rest: self.decoder@, agg: self.aggregator@, done: self.done }
    }
}

impl TurnStream {
    /// A fresh turn: nothing buffered, nothing aggregated.
    pub fn new() -> (r: TurnStream)
        ensures
            r@ == (TurnStreamView { rest: Seq::empty(), agg: agg_init(), done: false }),
    {
        let r = TurnStream {
            decoder: LineDecoder::new(),
            aggregator: TurnAggregator::new(),
            done: false,
        };
        proof {
            assert(r@ =~~= (TurnStreamView { rest: Seq::empty(), agg: agg_init(), done: false }));
        }
        r
    }

    /// Whether the terminal frame has been seen; no further chunk need be read.
    pub fn done(&self) -> (r: bool)
        ensures
            r == self@.done,
    {
        self.done
    }

    /// Feeds one network chunk: returns the newly decoded events in arrival
    /// order and folds them into the turn's aggregate. What comes out depends
    /// only on the bytes, never on how the network fragmented them.
    pub fn push_chunk(&mut self, chunk: &[u8]) -> (out: Vec<StreamEvent>)
        ensures
            out@.map_values(|e: StreamEvent| e@) == events_of_lines(
                complete_lines(old(self)@.rest, chunk@),
            ),
            final(self)@.rest == line_rest(old(self)@.rest, chunk@),
            final(self)@.agg == agg_run(
                old(self)@.agg,
                events_of_lines(complete_lines(old(self)@.rest, chunk@)),
            ),
            final(self)@.done == (old(self)@.done || contains_done(
                events_of_lines(complete_lines(old(self)@.rest, chunk@)),
            )),
    {
        let ghost m = old(self)@;
        let lines = self.decoder.feed(chunk);
        let events = decode_lines(&lines);
        let ghost evs = events@.map_values(|e: StreamEvent| e@);
        let mut i: usize = 0;
        proof {
            assert(evs.take(0) =~= Seq::<EventView>::empty());
            assert(!contains_done(evs.take(0)));
        }
        while i < events.len()
            invariant
                i <= events.len(),
                evs == events@.map_values(|e: StreamEvent| e@),
                self.decoder@ == line_rest(m.rest, chunk@),
                self.aggregator@ == agg_run(m.agg, evs.take(i as int)),
                self.done == (m.done || contains_done(evs.take(i as int))),
            decreases events.len() - i,
        {
            let ghost prefix = evs.take(i as int);
            proof {
                assert(evs.take(i + 1) =~= prefix.push(evs[i as int]));
                lemma_agg_run_snoc(m.agg, prefix, evs[i as int]);
            }
            let e = &events[i];
            match e {
                StreamEvent::Done => {
                    self.done = true;
                    proof {
                        assert(evs.take(i + 1)[i as int] == EventView::Done);
                        assert(contains_done(evs.take(i + 1)));
                    }
                },
                _ => {
                    proof {
                        if contains_done(evs.take(i + 1)) {
                            let k = choose|k: int|
                                0 <= k < evs.take(i + 1).len() && (#[trigger] evs.take(i + 1)[k])
                                    == EventView::Done;
                            if k < i {
                                assert(prefix[k] == EventView::Done);
                                assert(contains_done(prefix));
                            }
                        }
                        if contains_done(prefix) {
                            let k = choose|k: int|
                                0 <= k < prefix.len() && (#[trigger] prefix[k])
                                    == EventView::Done;
                            assert(evs.take(i + 1)[k] == EventView::Done);
                            assert(contains_done(evs.take(i + 1)));
                        }
                    }
                },
            }
            self.aggregator.push_event(e);
            i = i + 1;
        }
        proof {
            assert(evs.take(events@.len() as int) =~= evs);
        }
        events
    }

    /// Closes the turn once its stream is exhausted, exactly as the
    /// aggregation states: a tool use still open is a protocol error and
    /// emits nothing; otherwise the content is one text block holding the
    /// concatenated deltas followed by the completed tool-use blocks, with
    /// the summed usage.
    pub fn finish(self) -> (r: Result<ApiResult, ApiError>)
        ensures
            self@.agg.pending.len() == 0 ==> (r matches Ok(a) && a@.content == seq![
                BlockView::Text { text: self@.agg.text },
            ] + self@.agg.tools && a@.usage.input_tokens == self@.agg.usage_in
                && a@.usage.output_tokens == self@.agg.usage_out),
            self@.agg.pending.len() != 0 ==> (r matches Err(e)
                && e@ matches ApiErrorView::Protocol { message } && message.len() > 0),
    {
        let TurnStream { decoder: _, aggregator, done: _ } = self;
        aggregator.finish()
    }
}

} // verus!
