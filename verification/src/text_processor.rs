//! Per-region text stabilization: debounces noisy per-frame recognition
//! results into discrete text events.
//!
//! Observations pass a gate (block confidence and anchoring near the
//! region's top-left corner), accumulate in a pending buffer while they stay
//! similar to the buffer's first entry, and are flushed as a single event --
//! the buffered observation with the highest confidence, first one on ties
//! -- when a dissimilar line arrives or the buffer goes idle.

use vstd::prelude::*;

verus! {

use crate::config::{ProcessorStrategy, Region};
use crate::similarity::{is_similar, similar};

/// Confidence gate: an observation's first block must reach this confidence,
/// in thousandths (`600` stands for 0.6).
pub const CONFIDENCE_GATE_PER_MILLE: u32 = 600;

/// Anchor gate: the first block's top-left corner must lie within a fifth
/// (20%) of the region's width and height from the region's corner.
pub const ANCHOR_RATIO_DENOMINATOR: u32 = 5;

/// A pending buffer whose newest entry is older than this many milliseconds
/// is flushed on the next poll even without a dissimilar successor.
pub const IDLE_FLUSH_MS: i64 = 5000;

/// A recognized block or word rectangle, in source-frame pixel coordinates,
/// with its recognition confidence in thousandths (`0..=1000`).
#[derive(Clone, Copy, PartialEq, Eq, Structural, Debug)]
pub struct BoundingBox {
    pub confidence: u32,
    pub x1: i32,
    pub y1: i32,
    pub x2: i32,
    pub y2: i32,
}

/// A stabilized text event: the externally visible unit of output, emitted
/// at most once per logical utterance.  The timestamp is in milliseconds,
/// the confidence in thousandths.
#[derive(Clone, Debug)]
pub struct TextItem {
    pub timestamp_ms: i64,
    pub text: String,
    pub confidence: u32,
}

/// The mathematical value of one buffered or emitted observation.
#[verifier::ext_equal]
pub ghost struct Obs {
    pub timestamp_ms: int,
    pub text: Seq<char>,
    pub confidence: int,
}

impl View for TextItem {
    type V = Obs;

    open spec fn view(&self) -> Obs {
        Obs {
            timestamp_ms: self.timestamp_ms as int,
            text: self.text@,
            confidence: self.confidence as int,
        }
    }
}

/// An accepted observation waiting in the pending buffer.
struct InputTextItem {
    timestamp_ms: i64,
    text: String,
    confidence: u32,
}

impl View for InputTextItem {
    type V = Obs;

    closed spec fn view(&self) -> Obs {
        Obs {
            timestamp_ms: self.timestamp_ms as int,
            text: self.text@,
            confidence: self.confidence as int,
        }
    }
}

/// The mathematical state of a stabilizer: the configured region, the
/// pending buffer of observations believed to be the same line, and the
/// queue of stabilized events not yet collected by a poll.
#[verifier::ext_equal]
pub ghost struct StabState {
    pub region: Region,
    pub buffer: Seq<Obs>,
    pub output: Seq<Obs>,
}

/// Whether the first block's corner lies within 20% of the region's extent
/// from the region's top-left corner, on both axes.
pub open spec fn anchored_top_left(region: Region, b: BoundingBox) -> bool {
    &&& ANCHOR_RATIO_DENOMINATOR * vstd::math::abs(region.x - b.x1) <= region.width
    &&& ANCHOR_RATIO_DENOMINATOR * vstd::math::abs(region.y - b.y1) <= region.height
}

/// The acceptance gate: some block was recognized, its confidence reaches
/// the threshold, and it sits anchored at the region's top-left corner.
pub open spec fn gate_ok(region: Region, boxes: Seq<BoundingBox>) -> bool {
    &&& boxes.len() > 0
    &&& boxes[0].confidence >= CONFIDENCE_GATE_PER_MILLE
    &&& anchored_top_left(region, boxes[0])
}

/// The index the flush selects: the first buffered observation holding the
/// maximum confidence, mirroring a left-to-right scan with a strict update.
pub open spec fn best_index(buf: Seq<Obs>) -> int
    decreases buf.len(),
{
    if buf.len() <= 1 {
        0
    } else {
        let p = best_index(buf.drop_last());
        if buf.last().confidence > buf[p].confidence {
            buf.len() - 1
        } else {
            p
        }
    }
}

/// Flushing a non-empty buffer emits its best observation and clears it;
/// flushing an empty buffer does nothing.
pub open spec fn stab_flush(s: StabState) -> StabState {
    if s.buffer.len() == 0 {
        s
    } else {
        StabState {
            region: s.region,
            buffer: Seq::empty(),
            output: s.output.push(s.buffer[best_index(s.buffer)]),
        }
    }
}

/// One observation offered to the stabilizer: rejected whole when gating
/// refuses it; appended if the buffer is empty or the text is similar to the
/// buffer's first entry; otherwise the buffer is flushed first and the
/// observation starts a new buffer.
pub open spec fn stab_process(
    s: StabState,
    now_ms: int,
    text: Seq<char>,
    boxes: Seq<BoundingBox>,
) -> StabState {
    if !gate_ok(s.region, boxes) {
        s
    } else {
        let obs = Obs { timestamp_ms: now_ms, text: text, confidence: boxes[0].confidence as int };
        if s.buffer.len() == 0 || similar(s.buffer[0].text, text) {
            StabState { region: s.region, buffer: s.buffer.push(obs), output: s.output }
        } else {
            let f = stab_flush(s);
            StabState { region: f.region, buffer: seq![obs], output: f.output }
        }
    }
}

/// Whether a poll at `now_ms` finds the pending buffer idle: non-empty, and
/// its newest entry strictly more than five seconds old.
pub open spec fn idle_expired(s: StabState, now_ms: int) -> bool {
    s.buffer.len() > 0 && now_ms - s.buffer.last().timestamp_ms > IDLE_FLUSH_MS
}

/// The state after a poll: an idle buffer is flushed, and the output queue
/// is drained.
pub open spec fn stab_poll_state(s: StabState, now_ms: int) -> StabState {
    let f = if idle_expired(s, now_ms) {
        stab_flush(s)
    } else {
        s
    };
    StabState { region: f.region, buffer: f.buffer, output: Seq::empty() }
}

/// The events a poll returns, oldest first: everything queued since the
/// previous poll, including an idle flush happening on this poll.
pub open spec fn stab_poll_events(s: StabState, now_ms: int) -> Seq<Obs> {
    if idle_expired(s, now_ms) {
        stab_flush(s).output
    } else {
        s.output
    }
}

/// The flush's selection is sound: the selected index is in range, it holds
/// the maximum confidence of the buffer, and every earlier entry has
/// strictly smaller confidence, so ties keep the first entry found.
pub proof fn lemma_best_index_is_first_max(buf: Seq<Obs>)
    requires
        buf.len() > 0,
    ensures
        0 <= best_index(buf) < buf.len(),
        forall|j: int| 0 <= j < buf.len() ==> #[trigger] buf[j].confidence <= buf[best_index(
            buf,
        )].confidence,
        forall|j: int| 0 <= j < best_index(buf) ==> #[trigger] buf[j].confidence < buf[best_index(
            buf,
        )].confidence,
    decreases buf.len(),
{
    if buf.len() > 1 {
        lemma_best_index_is_first_max(buf.drop_last());
        assert(forall|j: int| 0 <= j < buf.len() - 1 ==> buf.drop_last()[j] == buf[j]);
    }
}

/// One whole feeding run, oldest input first; each input is a timestamp,
/// a recognized text, and the recognized block boxes.
pub open spec fn feed_all(s: StabState, ins: Seq<(int, Seq<char>, Seq<BoundingBox>)>) -> StabState
    decreases ins.len(),
{
    if ins.len() == 0 {
        s
    } else {
        stab_process(feed_all(s, ins.drop_last()), ins.last().0, ins.last().1, ins.last().2)
    }
}

/// Feeding consecutive observations that gating accepts, each of them
/// similar to the first one emits nothing: they only accumulate in the
/// pending buffer, one buffered entry per input, in feeding order.
pub proof fn lemma_similar_run_accumulates(
    s0: StabState,
    ins: Seq<(int, Seq<char>, Seq<BoundingBox>)>,
)
    requires
        s0.buffer.len() == 0,
        forall|i: int| 0 <= i < ins.len() ==> gate_ok(s0.region, #[trigger] ins[i].2),
        forall|i: int| 1 <= i < ins.len() ==> similar(ins[0].1, #[trigger] ins[i].1),
    ensures
        feed_all(s0, ins).region == s0.region,
        feed_all(s0, ins).output == s0.output,
        feed_all(s0, ins).buffer.len() == ins.len(),
        forall|i: int| 0 <= i < ins.len() ==> feed_all(s0, ins).buffer[i] == (Obs {
            timestamp_ms: ins[i].0,
            text: ins[i].1,
            confidence: ins[i].2[0].confidence as int,
        }),
    decreases ins.len(),
{
    if ins.len() > 0 {
        lemma_similar_run_accumulates(s0, ins.drop_last());
        assert(forall|i: int| 0 <= i < ins.len() - 1 ==> ins.drop_last()[i] == ins[i]);
        let prev = feed_all(s0, ins.drop_last());
        if ins.len() > 1 {
            assert(prev.buffer[0].text == ins[0].1);
            assert(similar(prev.buffer[0].text, ins.last().1));
        }
    }
}

/// LAW: a run of gate-passing observations, each similar to the first,
/// yields exactly one event when flushed, carrying the maximum confidence
/// of the run and the text and timestamp of the first input reaching that
/// maximum.
pub proof fn lemma_similar_run_flushes_to_single_best(
    s0: StabState,
    ins: Seq<(int, Seq<char>, Seq<BoundingBox>)>,
)
    requires
        s0.buffer.len() == 0,
        ins.len() > 0,
        forall|i: int| 0 <= i < ins.len() ==> gate_ok(s0.region, #[trigger] ins[i].2),
        forall|i: int| 1 <= i < ins.len() ==> similar(ins[0].1, #[trigger] ins[i].1),
    ensures
        ({
            let fed = feed_all(s0, ins);
            let chosen = best_index(fed.buffer);
            let flushed = stab_flush(fed);
            &&& flushed.output == s0.output.push(fed.buffer[chosen])
            &&& flushed.buffer.len() == 0
            &&& 0 <= chosen < ins.len()
            &&& fed.buffer[chosen] == (Obs {
                timestamp_ms: ins[chosen].0,
                text: ins[chosen].1,
                confidence: ins[chosen].2[0].confidence as int,
            })
            &&& forall|i: int| 0 <= i < ins.len() ==> ins[i].2[0].confidence
                <= fed.buffer[chosen].confidence
            &&& forall|i: int| 0 <= i < chosen ==> ins[i].2[0].confidence < fed.buffer[
                chosen
            ].confidence
        }),
{
    lemma_similar_run_accumulates(s0, ins);
    lemma_best_index_is_first_max(feed_all(s0, ins).buffer);
    let fed = feed_all(s0, ins);
    assert forall|i: int| 0 <= i < ins.len() implies #[trigger] ins[i].2[0].confidence
        == fed.buffer[i].confidence by {
        assert(fed.buffer[i] == (Obs {
            timestamp_ms: ins[i].0,
            text: ins[i].1,
            confidence: ins[i].2[0].confidence as int,
        }));
    }
}

/// LAW: an observation that gating accepts but is dissimilar to the
/// buffered line flushes the old line's best candidate as an event first,
/// and then starts a fresh buffer holding only the new observation.
pub proof fn lemma_dissimilar_flushes_then_rebuffers(
    s: StabState,
    now_ms: int,
    text: Seq<char>,
    boxes: Seq<BoundingBox>,
)
    requires
        s.buffer.len() > 0,
        gate_ok(s.region, boxes),
        !similar(s.buffer[0].text, text),
    ensures
        ({
            let next = stab_process(s, now_ms, text, boxes);
            &&& next.output == s.output.push(s.buffer[best_index(s.buffer)])
            &&& next.buffer =~= seq![
                Obs { timestamp_ms: now_ms, text: text, confidence: boxes[0].confidence as int },
            ]
        }),
{
}

/// LAW: an observation whose first block misses the confidence gate, or
/// whose first block is not anchored within 20% of the region's corner, is
/// never buffered and never reaches any emitted event: the stabilizer state
/// does not change at all.
pub proof fn lemma_gated_out_changes_nothing(
    s: StabState,
    now_ms: int,
    text: Seq<char>,
    boxes: Seq<BoundingBox>,
)
    requires
        boxes.len() == 0 || boxes[0].confidence < CONFIDENCE_GATE_PER_MILLE || !anchored_top_left(
            s.region,
            boxes[0],
        ),
    ensures
        stab_process(s, now_ms, text, boxes) == s,
{
}

/// LAW: a poll flushes a lone buffered line if and only if its newest entry
/// is strictly more than five seconds older than the poll instant; an
/// earlier poll leaves the buffer waiting and returns only what was already
/// queued.
pub proof fn lemma_idle_flush_timing(s: StabState, now_ms: int)
    requires
        s.buffer.len() > 0,
    ensures
        now_ms - s.buffer.last().timestamp_ms > IDLE_FLUSH_MS ==> stab_poll_events(s, now_ms)
            == s.output.push(s.buffer[best_index(s.buffer)]),
        now_ms - s.buffer.last().timestamp_ms <= IDLE_FLUSH_MS ==> stab_poll_events(s, now_ms)
            == s.output && stab_poll_state(s, now_ms).buffer == s.buffer,
{
}

/// Processes recognition results for a region focused on a line of text
/// that does not change position.
pub struct FixedLineProcessor {
    region: Region,
    input_buffer: Vec<InputTextItem>,
    output_buffer: Vec<TextItem>,
}

impl View for FixedLineProcessor {
    type V = StabState;

    closed spec fn view(&self) -> StabState {
        StabState {
            region: self.region,
            buffer: self.input_buffer@.map_values(|it: InputTextItem| it@),
            output: self.output_buffer@.map_values(|it: TextItem| it@),
        }
    }
}

fn is_text_block_confidence_ok(threshold: u32, block_bounding_boxes: &Vec<BoundingBox>) -> (r:
    bool)
    ensures
        r == (block_bounding_boxes@.len() > 0 && block_bounding_boxes@[0].confidence
            >= threshold),
{
    if block_bounding_boxes.len() > 0 {
        block_bounding_boxes[0].confidence >= threshold
    } else {
        false
    }
}

fn is_text_block_top_left(region: &Region, block_bounding_boxes: &Vec<BoundingBox>) -> (r: bool)
    ensures
        r == (block_bounding_boxes@.len() > 0 && anchored_top_left(
            *region,
            block_bounding_boxes@[0],
        )),
{
    if block_bounding_boxes.len() > 0 {
        let b = block_bounding_boxes[0];
        let dx = region.x as i64 - b.x1 as i64;
        let dx = if dx < 0 {
            -dx
        } else {
            dx
        };
        let dy = region.y as i64 - b.y1 as i64;
        let dy = if dy < 0 {
            -dy
        } else {
            dy
        };
        5 * dx <= region.width as i64 && 5 * dy <= region.height as i64
    } else {
        false
    }
}

impl FixedLineProcessor {
    /// A fresh stabilizer for `region`, with empty buffer and output queue.
    pub fn new(region: Region) -> (r: Self)
        ensures
            r@ == (StabState { region, buffer: Seq::<Obs>::empty(), output: Seq::<Obs>::empty() }),
    {
        let r = Self { region, input_buffer: Vec::new(), output_buffer: Vec::new() };
        proof {
            assert(r@.buffer =~= Seq::<Obs>::empty());
            assert(r@.output =~= Seq::<Obs>::empty());
        }
        r
    }

    /// Selects the buffered observation with the highest confidence (the
    /// first one on ties), emits it as a stabilized event, and clears the
    /// buffer; does nothing when the buffer is empty.
    fn flush_input_to_output_buffer(&mut self)
        ensures
            final(self)@ == stab_flush(old(self)@),
    {
        if self.input_buffer.len() == 0 {
            return ;
        }
        let ghost buf = self@.buffer;
        let mut best_confidence: u32 = self.input_buffer[0].confidence;
        let mut best_pos: usize = 0;
        proof {
            assert(buf.take(1).drop_last() =~= buf.take(0));
            assert(best_index(buf.take(1)) == 0);
        }
        for index in 1..self.input_buffer.len()
            invariant
                buf == self.input_buffer@.map_values(|it: InputTextItem| it@),
                1 <= index <= buf.len(),
                best_pos < index,
                best_pos == best_index(buf.take(index as int)),
                best_confidence == buf[best_pos as int].confidence,
        {
            proof {
                assert(buf.take(index + 1).drop_last() =~= buf.take(index as int));
                assert(buf.take(index + 1).last() == buf[index as int]);
            }
            if self.input_buffer[index].confidence > best_confidence {
                best_confidence = self.input_buffer[index].confidence;
                best_pos = index;
            }
        }
        proof {
            assert(buf.take(buf.len() as int) =~= buf);
        }
        let best_item = &self.input_buffer[best_pos];
        let emitted = TextItem {
            timestamp_ms: best_item.timestamp_ms,
            text: best_item.text.clone(),
            confidence: best_item.confidence,
        };
        self.output_buffer.push(emitted);
        self.input_buffer.clear();
        proof {
            assert(final(self)@.buffer =~= Seq::<Obs>::empty());
            assert(final(self)@.output =~= stab_flush(old(self)@).output);
        }
    }

    /// The region this stabilizer was configured for.
    pub fn region(&self) -> (r: Region)
        ensures
            r == self@.region,
    {
        self.region
    }

    /// Offers one recognition result to the stabilizer; the state changes
    /// exactly as `stab_process` describes.
    pub fn process(
        &mut self,
        now_ms: i64,
        text: &str,
        block_bounding_boxes: &Vec<BoundingBox>,
    )
        ensures
            final(self)@ == stab_process(
                old(self)@,
                now_ms as int,
                text@,
                block_bounding_boxes@,
            ),
    {
        if is_text_block_confidence_ok(CONFIDENCE_GATE_PER_MILLE, block_bounding_boxes)
            && is_text_block_top_left(&self.region, block_bounding_boxes) {
            if self.input_buffer.len() > 0 {
                let similar_to_first = is_similar(self.input_buffer[0].text.as_str(), text);
                if !similar_to_first {
                    self.flush_input_to_output_buffer();
                }
            }
            let accepted = InputTextItem {
                timestamp_ms: now_ms,
                text: text.to_owned(),
                confidence: block_bounding_boxes[0].confidence,
            };
            self.input_buffer.push(accepted);
            proof {
                let expected = stab_process(
                    old(self)@,
                    now_ms as int,
                    text@,
                    block_bounding_boxes@,
                );
                assert(final(self)@.buffer =~~= expected.buffer);
                assert(final(self)@.output =~~= expected.output);
            }
        }
    }

    /// Returns, oldest first, every stabilized event queued since the last
    /// poll, flushing first when the pending buffer has gone idle.
    pub fn poll_result(&mut self, now_ms: i64) -> (results: Vec<TextItem>)
        ensures
            final(self)@ == stab_poll_state(old(self)@, now_ms as int),
            results@.map_values(|it: TextItem| it@) == stab_poll_events(old(self)@, now_ms as int),
    {
        if self.input_buffer.len() > 0 {
            let newest = self.input_buffer.len() - 1;
            let newest_ms = self.input_buffer[newest].timestamp_ms;
            if (now_ms as i128) - (newest_ms as i128) > IDLE_FLUSH_MS as i128 {
                self.flush_input_to_output_buffer();
            }
        }
        let mut results: Vec<TextItem> = Vec::new();
        core::mem::swap(&mut results, &mut self.output_buffer);
        proof {
            assert(final(self)@.output =~= Seq::<Obs>::empty());
        }
        results
    }
}

/// Processes recognition results for a region focused on a fixed-size
/// dialog box in which text is revealed glyph by glyph and lines may shift
/// up to reveal subsequent lines.  The scrolling-specific detection logic
/// is an open design question; this strategy buffers nothing and emits
/// nothing.
pub struct DialogScrollProcessor {
    pub region: Region,
}

impl DialogScrollProcessor {
    pub fn new(region: Region) -> (r: Self)
        ensures
            r.region == region,
    {
        Self { region }
    }

    /// Accepts and discards the observation; the state does not change.
    pub fn process(
        &mut self,
        now_ms: i64,
        text: &str,
        block_bounding_boxes: &Vec<BoundingBox>,
    )
        ensures
            *final(self) == *old(self),
    {
    }

    /// No events are ever queued; the result is always empty.
    pub fn poll_result(&mut self, now_ms: i64) -> (results: Vec<TextItem>)
        ensures
            *final(self) == *old(self),
            results@.len() == 0,
    {
        Vec::new()
    }
}

/// The mathematical state of a stabilizer of either strategy.
#[verifier::ext_equal]
pub ghost enum TextModel {
    FixedLine(StabState),
    DialogScroll(Region),
}

/// What one observation does to a stabilizer of either strategy.
pub open spec fn model_process(
    m: TextModel,
    now_ms: int,
    text: Seq<char>,
    boxes: Seq<BoundingBox>,
) -> TextModel {
    match m {
        TextModel::FixedLine(s) => TextModel::FixedLine(stab_process(s, now_ms, text, boxes)),
        TextModel::DialogScroll(r) => TextModel::DialogScroll(r),
    }
}

/// The state either strategy is left in by a poll.
pub open spec fn model_poll_state(m: TextModel, now_ms: int) -> TextModel {
    match m {
        TextModel::FixedLine(s) => TextModel::FixedLine(stab_poll_state(s, now_ms)),
        TextModel::DialogScroll(r) => TextModel::DialogScroll(r),
    }
}

/// The events either strategy returns from a poll, oldest first.
pub open spec fn model_poll_events(m: TextModel, now_ms: int) -> Seq<Obs> {
    match m {
        TextModel::FixedLine(s) => stab_poll_events(s, now_ms),
        TextModel::DialogScroll(r) => Seq::empty(),
    }
}

/// The closed set of stabilization strategies, selected per region at
/// configuration time; both variants answer the same `process` /
/// `poll_result` contract.
pub enum TextProcessor {
    FixedLine(FixedLineProcessor),
    DialogScroll(DialogScrollProcessor),
}

impl View for TextProcessor {
    type V = TextModel;

    open spec fn view(&self) -> TextModel {
        match self {
            TextProcessor::FixedLine(p) => TextModel::FixedLine(p@),
            TextProcessor::DialogScroll(p) => TextModel::DialogScroll(p.region),
        }
    }
}

impl TextProcessor {
    /// The stabilizer the region's configured strategy selects, started
    /// with an empty state.
    pub fn new(region: Region) -> (r: Self)
        ensures
            region.processor is FixedLine ==> r@ == TextModel::FixedLine(
                StabState { region, buffer: Seq::<Obs>::empty(), output: Seq::<Obs>::empty() },
            ),
            region.processor is DialogScroll ==> r@ == TextModel::DialogScroll(region),
    {
        match region.processor {
            ProcessorStrategy::FixedLine => TextProcessor::FixedLine(
                FixedLineProcessor::new(region),
            ),
            ProcessorStrategy::DialogScroll => TextProcessor::DialogScroll(
                DialogScrollProcessor::new(region),
            ),
        }
    }

    /// The region this stabilizer was configured for.
    pub fn region(&self) -> (r: Region)
        ensures
            r == match self@ {
                TextModel::FixedLine(s) => s.region,
                TextModel::DialogScroll(reg) => reg,
            },
    {
        match self {
            TextProcessor::FixedLine(p) => p.region(),
            TextProcessor::DialogScroll(p) => p.region,
        }
    }

    /// Offers one recognition result to the region's stabilizer.
    pub fn process(
        &mut self,
        now_ms: i64,
        text: &str,
        block_bounding_boxes: &Vec<BoundingBox>,
    )
        ensures
            final(self)@ == model_process(
                old(self)@,
                now_ms as int,
                text@,
                block_bounding_boxes@,
            ),
    {
        match self {
            TextProcessor::FixedLine(p) => p.process(now_ms, text, block_bounding_boxes),
            TextProcessor::DialogScroll(p) => p.process(now_ms, text, block_bounding_boxes),
        }
    }

    /// Drains every stabilized event queued since the previous poll,
    /// oldest first.
    pub fn poll_result(&mut self, now_ms: i64) -> (results: Vec<TextItem>)
        ensures
            final(self)@ == model_poll_state(old(self)@, now_ms as int),
            results@.map_values(|it: TextItem| it@) == model_poll_events(
                old(self)@,
                now_ms as int,
            ),
    {
        let results = match self {
            TextProcessor::FixedLine(p) => p.poll_result(now_ms),
            TextProcessor::DialogScroll(p) => p.poll_result(now_ms),
        };
        proof {
            assert(results@.map_values(|it: TextItem| it@) =~= model_poll_events(
                old(self)@,
                now_ms as int,
            ));
        }
        results
    }
}

} // verus!
