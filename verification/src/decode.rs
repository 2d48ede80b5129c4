//! Wire decoding of the provider's streaming response.
//!
//! The response body is a byte stream of newline-delimited frames of the form
//! `data: <json>`, closed by the sentinel `data: [DONE]`. [`LineDecoder`]
//! buffers raw network chunks and hands out complete lines — a partial
//! trailing line is held, never parsed — so decoding does not depend on how
//! the network fragmented the stream. [`decode_line`] turns one complete line
//! into at most one [`StreamEvent`]: blank lines, lines without the frame
//! prefix and frames whose JSON does not parse are skipped, not fatal.

use vstd::prelude::*;
use crate::model::{StreamEvent, EventView};

verus! {

/// The newline byte that terminates one frame line.
pub const LINE_END: u8 = 10;

/// Splits `s` at every newline, continuing the unfinished line `cur`.
/// The result always ends with the unfinished remainder; every element
/// before it is one complete line, without its newline.
pub open spec fn split_lines(cur: Seq<u8>, s: Seq<u8>) -> Seq<Seq<u8>>
    decreases s.len(),
{
    if s.len() == 0 {
        seq![cur]
    } else if s[0] == LINE_END {
        seq![cur] + split_lines(Seq::empty(), s.skip(1))
    } else {
        split_lines(cur.push(s[0]), s.skip(1))
    }
}

/// The complete lines delivered when `s` arrives on top of the unfinished
/// line `cur`.
pub open spec fn complete_lines(cur: Seq<u8>, s: Seq<u8>) -> Seq<Seq<u8>> {
    split_lines(cur, s).drop_last()
}

/// The unfinished trailing line left over after `s` arrives on top of `cur`.
pub open spec fn line_rest(cur: Seq<u8>, s: Seq<u8>) -> Seq<u8> {
    split_lines(cur, s).last()
}

pub proof fn lemma_split_lines_len(cur: Seq<u8>, s: Seq<u8>)
    ensures
        split_lines(cur, s).len() >= 1,
    decreases s.len(),
{
    if s.len() == 0 {
    } else if s[0] == LINE_END {
        lemma_split_lines_len(Seq::empty(), s.skip(1));
    } else {
        lemma_split_lines_len(cur.push(s[0]), s.skip(1));
    }
}

/// Feeding one more byte extends the unfinished line, or closes it.
pub proof fn lemma_split_lines_snoc(cur: Seq<u8>, s: Seq<u8>, b: u8)
    ensures
        b == LINE_END ==> split_lines(cur, s.push(b)) == split_lines(cur, s).push(
            Seq::<u8>::empty(),
        ),
        b != LINE_END ==> split_lines(cur, s.push(b)) == split_lines(cur, s).drop_last().push(
            split_lines(cur, s).last().push(b),
        ),
    decreases s.len(),
{
    reveal_with_fuel(split_lines, 3);
    lemma_split_lines_len(cur, s);
    if s.len() == 0 {
        assert(s.push(b)[0] == b);
        assert(s.push(b).skip(1) =~= Seq::<u8>::empty());
        if b == LINE_END {
            assert(split_lines(cur, s.push(b)) =~= split_lines(cur, s).push(Seq::<u8>::empty()));
        } else {
            assert(split_lines(cur, s.push(b)) =~= split_lines(cur, s).drop_last().push(
                split_lines(cur, s).last().push(b),
            ));
        }
    } else {
        assert(s.push(b)[0] == s[0]);
        assert(s.push(b).skip(1) =~= s.skip(1).push(b));
        if s[0] == LINE_END {
            lemma_split_lines_snoc(Seq::empty(), s.skip(1), b);
            lemma_split_lines_len(Seq::empty(), s.skip(1));
            if b == LINE_END {
                assert(split_lines(cur, s.push(b)) =~= split_lines(cur, s).push(
                    Seq::<u8>::empty(),
                ));
            } else {
                assert(split_lines(cur, s.push(b)) =~= split_lines(cur, s).drop_last().push(
                    split_lines(cur, s).last().push(b),
                ));
            }
        } else {
            lemma_split_lines_snoc(cur.push(s[0]), s.skip(1), b);
        }
    }
}

/// Splitting distributes over concatenation of the incoming bytes: the lines
/// of `a + b` are the complete lines of `a` followed by the lines of `b`
/// decoded from the remainder that `a` left behind.
pub proof fn lemma_split_lines_concat(cur: Seq<u8>, a: Seq<u8>, b: Seq<u8>)
    ensures
        split_lines(cur, a + b) == complete_lines(cur, a) + split_lines(line_rest(cur, a), b),
    decreases a.len(),
{
    lemma_split_lines_len(cur, a);
    if a.len() == 0 {
        assert(a + b =~= b);
        assert(complete_lines(cur, a) =~= Seq::<Seq<u8>>::empty());
        assert(line_rest(cur, a) == cur);
        assert(complete_lines(cur, a) + split_lines(cur, b) =~= split_lines(cur, b));
    } else {
        assert((a + b)[0] == a[0]);
        assert((a + b).skip(1) =~= a.skip(1) + b);
        if a[0] == LINE_END {
            lemma_split_lines_concat(Seq::empty(), a.skip(1), b);
            lemma_split_lines_len(Seq::empty(), a.skip(1));
            assert(complete_lines(cur, a) =~= seq![cur] + complete_lines(Seq::empty(), a.skip(1)));
            assert(line_rest(cur, a) == line_rest(Seq::empty(), a.skip(1)));
            assert(split_lines(cur, a + b) =~= complete_lines(cur, a) + split_lines(
                line_rest(cur, a),
                b,
            ));
        } else {
            lemma_split_lines_concat(cur.push(a[0]), a.skip(1), b);
        }
    }
}

/// The lines delivered when the chunks arrive one by one, starting from the
/// unfinished line `cur`.
pub open spec fn decoded_lines(cur: Seq<u8>, chunks: Seq<Seq<u8>>) -> Seq<Seq<u8>>
    decreases chunks.len(),
{
    if chunks.len() == 0 {
        Seq::empty()
    } else {
        complete_lines(cur, chunks.first()) + decoded_lines(
            line_rest(cur, chunks.first()),
            chunks.drop_first(),
        )
    }
}

/// The unfinished line left after the chunks arrive one by one.
pub open spec fn decoded_rest(cur: Seq<u8>, chunks: Seq<Seq<u8>>) -> Seq<u8>
    decreases chunks.len(),
{
    if chunks.len() == 0 {
        cur
    } else {
        decoded_rest(line_rest(cur, chunks.first()), chunks.drop_first())
    }
}

/// For every byte-chunk fragmentation of a stream, the decoded lines and the
/// held-back remainder equal those of decoding the unfragmented stream.
pub proof fn lemma_fragmentation_invariant(cur: Seq<u8>, chunks: Seq<Seq<u8>>)
    ensures
        decoded_lines(cur, chunks) == complete_lines(cur, chunks.flatten()),
        decoded_rest(cur, chunks) == line_rest(cur, chunks.flatten()),
    decreases chunks.len(),
{
    lemma_split_lines_len(cur, chunks.flatten());
    if chunks.len() == 0 {
        assert(chunks.flatten() =~= Seq::<u8>::empty());
        assert(decoded_lines(cur, chunks) =~= complete_lines(cur, Seq::<u8>::empty()));
    } else {
        let a = chunks.first();
        let rest = chunks.drop_first();
        lemma_fragmentation_invariant(line_rest(cur, a), rest);
        lemma_split_lines_concat(cur, a, rest.flatten());
        assert(chunks.flatten() == a + rest.flatten());
        lemma_split_lines_len(line_rest(cur, a), rest.flatten());
        assert(split_lines(cur, a + rest.flatten()).drop_last() =~= complete_lines(cur, a)
            + split_lines(line_rest(cur, a), rest.flatten()).drop_last());
        assert(split_lines(cur, a + rest.flatten()).last() == split_lines(
            line_rest(cur, a),
            rest.flatten(),
        ).last());
    }
}

/// Buffers raw network chunks and hands out complete lines; the partial
/// trailing line is held until its newline arrives.
pub struct LineDecoder {
    buf: Vec<u8>,
}

impl View for LineDecoder {
    type V = Seq<u8>;

    closed spec fn view(&self) -> Seq<u8> {
        self.buf@
    }
}

impl LineDecoder {
    /// A fresh decoder holding no unfinished line.
    pub fn new() -> (r: LineDecoder)
        ensures
            r@ == Seq::<u8>::empty(),
    {
        LineDecoder { buf: Vec::new() }
    }

    /// Feeds one network chunk; returns every line completed by it, in
    /// arrival order, and holds the unfinished remainder back.
    pub fn feed(&mut self, chunk: &[u8]) -> (out: Vec<Vec<u8>>)
        ensures
            out@.map_values(|l: Vec<u8>| l@) == complete_lines(old(self)@, chunk@),
            final(self)@ == line_rest(old(self)@, chunk@),
    {
        let mut out: Vec<Vec<u8>> = Vec::new();
        let mut i: usize = 0;
        proof {
            assert(chunk@.take(0) =~= Seq::<u8>::empty());
            assert(split_lines(old(self)@, Seq::<u8>::empty()) =~= seq![old(self)@]);
            assert(out@.map_values(|l: Vec<u8>| l@).push(self.buf@) =~= seq![old(self)@]);
        }
        while i < chunk.len()
            invariant
                i <= chunk.len(),
                out@.map_values(|l: Vec<u8>| l@).push(self.buf@) == split_lines(
                    old(self)@,
                    chunk@.take(i as int),
                ),
            decreases chunk.len() - i,
        {
            let ghost prev = chunk@.take(i as int);
            let ghost prev_out = out@.map_values(|l: Vec<u8>| l@);
            proof {
                lemma_split_lines_snoc(old(self)@, prev, chunk@[i as int]);
                assert(chunk@.take(i + 1) =~= prev.push(chunk@[i as int]));
                assert(prev_out.push(self.buf@).drop_last() =~= prev_out);
                assert(prev_out.push(self.buf@).last() == self.buf@);
            }
            let b = *vstd::slice::slice_index_get(chunk, i);
            if b == LINE_END {
                let mut line: Vec<u8> = Vec::new();
                core::mem::swap(&mut line, &mut self.buf);
                out.push(line);
                proof {
                    assert(out@.map_values(|l: Vec<u8>| l@) =~= prev_out.push(line@));
                    assert(prev_out.push(line@).push(self.buf@) =~= split_lines(
                        old(self)@,
                        chunk@.take(i + 1),
                    ));
                }
            } else {
                self.buf.push(b);
                proof {
                    assert(out@.map_values(|l: Vec<u8>| l@).push(self.buf@) =~= split_lines(
                        old(self)@,
                        chunk@.take(i + 1),
                    ));
                }
            }
            i = i + 1;
        }
        proof {
            assert(chunk@.take(chunk@.len() as int) =~= chunk@);
            let all = split_lines(old(self)@, chunk@);
            let outv = out@.map_values(|l: Vec<u8>| l@);
            assert(outv.push(self.buf@).drop_last() =~= outv);
            assert(outv == all.drop_last());
            assert(outv.push(self.buf@).last() == self.buf@);
        }
        out
    }
}

/// What the provider's frame JSON holds at `choices[0].delta.content`, when
/// the payload parses and that field is a string; a function of the payload
/// bytes alone.
pub uninterp spec fn delta_content_of(payload: Seq<u8>) -> Option<Seq<char>>;

/// The `(prompt, completion)` token counts of the frame JSON's `usage`
/// member, each 0 where its field is absent or not an unsigned integer, or
/// `None` when the payload does not parse or has no `usage` member; a
/// function of the payload bytes alone.
pub uninterp spec fn usage_of(payload: Seq<u8>) -> Option<(u64, u64)>;

/// Relies on serde_json::from_slice and Value::get/as_str: returns the string
/// at `choices[0].delta.content` of the payload's JSON, or `None` when the
/// payload does not parse, lacks that field, or holds something other than a
/// string there.
#[verifier::external_body]
fn extract_delta_content(payload: &[u8]) -> (r: Option<String>)
    ensures
        r is Some <==> delta_content_of(payload@) is Some,
        r matches Some(s) ==> delta_content_of(payload@) matches Some(t) && s@ == t,
{
    let v: serde_json::Value = match serde_json::from_slice(payload) {
        Ok(v) => v,
        Err(_) => return None,
    };
    let s = v.get("choices")?.get(0)?.get("delta")?.get("content")?.as_str()?;
    Some(s.to_string())
}

/// Relies on serde_json::from_slice and Value::get/as_u64: reads
/// `usage.prompt_tokens` and `usage.completion_tokens` from the payload's
/// JSON, each 0 where its field is absent or not an unsigned integer, or
/// `None` when the payload does not parse or has no `usage` member.
#[verifier::external_body]
fn extract_usage(payload: &[u8]) -> (r: Option<(u64, u64)>)
    ensures
        r == usage_of(payload@),
{
    let v: serde_json::Value = match serde_json::from_slice(payload) {
        Ok(v) => v,
        Err(_) => return None,
    };
    let u = v.get("usage")?;
    let input = u.get("prompt_tokens").and_then(|x| x.as_u64()).unwrap_or(0);
    let output = u.get("completion_tokens").and_then(|x| x.as_u64()).unwrap_or(0);
    Some((input, output))
}

/// The frame prefix `data: ` as bytes.
pub open spec fn data_prefix() -> Seq<u8> {
    seq![100u8, 97u8, 116u8, 97u8, 58u8, 32u8]
}

/// The sentinel payload `[DONE]` as bytes.
pub open spec fn done_payload() -> Seq<u8> {
    seq![91u8, 68u8, 79u8, 78u8, 69u8, 93u8]
}

/// The event one complete line yields: `Done` for the sentinel frame, a text
/// delta or a usage report for a frame whose JSON carries one, nothing for
/// blank lines, non-frame lines and frames that do not parse.
pub open spec fn line_event(l: Seq<u8>) -> Option<EventView> {
    if l == data_prefix() + done_payload() {
        Some(EventView::Done)
    } else if l.len() >= 6 && l.take(6) == data_prefix() {
        let p = l.skip(6);
        if delta_content_of(p) is Some {
            Some(EventView::TextDelta { text: delta_content_of(p)->0 })
        } else if usage_of(p) is Some {
            Some(
                EventView::Usage {
                    input_tokens: (usage_of(p)->0).0,
                    output_tokens: (usage_of(p)->0).1,
                },
            )
        } else {
            None
        }
    } else {
        None
    }
}

/// The view of a possibly-absent event.
pub open spec fn opt_event_view(r: Option<StreamEvent>) -> Option<EventView> {
    match r {
        Some(e) => Some(e@),
        None => None,
    }
}

/// True when the line begins with the `data: ` frame prefix.
fn starts_with_data(line: &[u8]) -> (r: bool)
    ensures
        r == (line@.len() >= 6 && line@.take(6) == data_prefix()),
{
    if line.len() < 6 {
        return false;
    }
    let r = *vstd::slice::slice_index_get(line, 0) == 100 && *vstd::slice::slice_index_get(line, 1)
        == 97 && *vstd::slice::slice_index_get(line, 2) == 116 && *vstd::slice::slice_index_get(
        line,
        3,
    ) == 97 && *vstd::slice::slice_index_get(line, 4) == 58 && *vstd::slice::slice_index_get(
        line,
        5,
    ) == 32;
    proof {
        if r {
            assert(line@.take(6) =~= data_prefix());
        } else {
            assert(line@.take(6) != data_prefix());
        }
    }
    r
}

/// True when the line is exactly the terminal frame `data: [DONE]`.
fn is_done_line(line: &[u8]) -> (r: bool)
    ensures
        r == (line@ == data_prefix() + done_payload()),
{
    if line.len() != 12 {
        proof {
            assert(line@ != data_prefix() + done_payload());
        }
        return false;
    }
    if !starts_with_data(line) {
        proof {
            assert((data_prefix() + done_payload()).take(6) =~= data_prefix());
        }
        return false;
    }
    let r = *vstd::slice::slice_index_get(line, 6) == 91 && *vstd::slice::slice_index_get(line, 7)
        == 68 && *vstd::slice::slice_index_get(line, 8) == 79 && *vstd::slice::slice_index_get(
        line,
        9,
    ) == 78 && *vstd::slice::slice_index_get(line, 10) == 69 && *vstd::slice::slice_index_get(
        line,
        11,
    ) == 93;
    proof {
        if r {
            assert(line@ =~= data_prefix() + done_payload());
        } else {
            assert(line@ != data_prefix() + done_payload());
        }
    }
    r
}

/// Decodes one complete line into at most one stream event, exactly as
/// [`line_event`] states: the sentinel yields `Done`; a frame yields a text
/// delta or a usage report when its JSON carries one; everything else —
/// blank lines, other lines, frames that do not parse — yields nothing.
pub fn decode_line(line: &[u8]) -> (r: Option<StreamEvent>)
    ensures
        opt_event_view(r) == line_event(line@),
{
    if is_done_line(line) {
        return Some(StreamEvent::Done);
    }
    if !starts_with_data(line) {
        return None;
    }
    let payload = vstd::slice::slice_subrange(line, 6, line.len());
    proof {
        assert(payload@ =~= line@.skip(6));
    }
    match extract_delta_content(payload) {
        Some(text) => Some(StreamEvent::TextDelta { text }),
        None => {
            match extract_usage(payload) {
                Some(u) => Some(StreamEvent::Usage { input_tokens: u.0, output_tokens: u.1 }),
                None => None,
            }
        },
    }
}

/// The events a sequence of complete lines yields, in order.
pub open spec fn events_of_lines(lines: Seq<Seq<u8>>) -> Seq<EventView>
    decreases lines.len(),
{
    if lines.len() == 0 {
        Seq::empty()
    } else {
        match line_event(lines.first()) {
            Some(e) => seq![e] + events_of_lines(lines.drop_first()),
            None => events_of_lines(lines.drop_first()),
        }
    }
}

/// Decoding events distributes over concatenation of line sequences.
pub proof fn lemma_events_of_lines_concat(a: Seq<Seq<u8>>, b: Seq<Seq<u8>>)
    ensures
        events_of_lines(a + b) == events_of_lines(a) + events_of_lines(b),
    decreases a.len(),
{
    if a.len() == 0 {
        assert(a + b =~= b);
        assert(events_of_lines(a) + events_of_lines(b) =~= events_of_lines(b));
    } else {
        assert((a + b).first() == a.first());
        assert((a + b).drop_first() =~= a.drop_first() + b);
        lemma_events_of_lines_concat(a.drop_first(), b);
        match line_event(a.first()) {
            Some(e) => {
                assert(seq![e] + (events_of_lines(a.drop_first()) + events_of_lines(b)) =~= (
                seq![e] + events_of_lines(a.drop_first())) + events_of_lines(b));
            },
            None => {},
        }
    }
}

/// For every byte-chunk fragmentation of a stream, the decoded sequence of
/// events equals that of decoding the unfragmented stream.
pub proof fn lemma_fragmentation_events(cur: Seq<u8>, chunks: Seq<Seq<u8>>)
    ensures
        events_of_lines(decoded_lines(cur, chunks)) == events_of_lines(
            complete_lines(cur, chunks.flatten()),
        ),
{
    lemma_fragmentation_invariant(cur, chunks);
}

/// Decodes a batch of complete lines, keeping the events of those lines that
/// yield one, in order.
pub fn decode_lines(lines: &Vec<Vec<u8>>) -> (out: Vec<StreamEvent>)
    ensures
        out@.map_values(|e: StreamEvent| e@) == events_of_lines(
            lines@.map_values(|l: Vec<u8>| l@),
        ),
{
    let mut out: Vec<StreamEvent> = Vec::new();
    let mut i: usize = 0;
    proof {
        assert(lines@.map_values(|l: Vec<u8>| l@).take(0) =~= Seq::<Seq<u8>>::empty());
        assert(out@.map_values(|e: StreamEvent| e@) =~= events_of_lines(
            lines@.map_values(|l: Vec<u8>| l@).take(0),
        ));
    }
    while i < lines.len()
        invariant
            i <= lines.len(),
            out@.map_values(|e: StreamEvent| e@) == events_of_lines(
                lines@.map_values(|l: Vec<u8>| l@).take(i as int),
            ),
        decreases lines.len() - i,
    {
        let ghost lseq = lines@.map_values(|l: Vec<u8>| l@);
        let ghost prev_out = out@.map_values(|e: StreamEvent| e@);
        proof {
            reveal_with_fuel(events_of_lines, 2);
            assert(lseq.take(i + 1) =~= lseq.take(i as int) + seq![lseq[i as int]]);
            lemma_events_of_lines_concat(lseq.take(i as int), seq![lseq[i as int]]);
            assert(seq![lseq[i as int]].first() == lseq[i as int]);
            assert(seq![lseq[i as int]].drop_first() =~= Seq::<Seq<u8>>::empty());
        }
        match decode_line(lines[i].as_slice()) {
            Some(e) => {
                out.push(e);
                proof {
                    assert(out@.map_values(|ev: StreamEvent| ev@) =~= prev_out.push(e@));
                    assert(events_of_lines(seq![lseq[i as int]]) =~= seq![e@]);
                    assert(prev_out.push(e@) =~= prev_out + seq![e@]);
                }
            },
            None => {
                proof {
                    assert(events_of_lines(seq![lseq[i as int]]) =~= Seq::<EventView>::empty());
                    assert(prev_out + Seq::<EventView>::empty() =~= prev_out);
                }
            },
        }
        i = i + 1;
    }
    proof {
        assert(lines@.map_values(|l: Vec<u8>| l@).take(lines@.len() as int) =~= lines@.map_values(
            |l: Vec<u8>| l@,
        ));
    }
    out
}

} // verus!
