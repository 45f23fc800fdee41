//! Frame-delivery decisions of the producer side: pacing to roughly ten
//! delivered frames per second, reacting to what the decoder produced,
//! noticing mid-stream format changes, and the single publication step
//! that writes the shared segment before it sends the reply.

use vstd::prelude::*;

verus! {

use crate::message_socket::{ch_server_send, ch_server_take, SyncChannel};
use crate::shared_memory::{SegmentModel, SharedMemory, ShmNamespace};

/// One packed 32-bit color per pixel.
pub const BYTES_PER_PIXEL: u32 = 4;

/// The least presentation-time gap between two delivered frames: frames
/// arriving faster than this are skipped, throttling recognition-relevant
/// delivery to roughly ten updates per second.
pub const DELIVERY_INTERVAL_MS: i64 = 100;

/// The byte length of a frame buffer: one 32-bit packed color per pixel,
/// row-major, no header.  Absent when the product does not fit the
/// machine's address width.
pub fn frame_buffer_size(width: u32, height: u32) -> (r: Option<usize>)
    ensures
        r is Some <==> width * height * BYTES_PER_PIXEL <= usize::MAX,
        r is Some ==> r->Some_0 == width * height * BYTES_PER_PIXEL,
{
    proof {
        assert((width as int) * (height as int) <= 0xFFFF_FFFF * 0xFFFF_FFFF) by (nonlinear_arith)
            requires
                width as int <= 0xFFFF_FFFF,
                height as int <= 0xFFFF_FFFF,
        ;
    }
    let wh: u128 = (width as u128) * (height as u128);
    let n: u128 = wh * (BYTES_PER_PIXEL as u128);
    if n <= usize::MAX as u128 {
        Some(n as usize)
    } else {
        None
    }
}

/// What one attempt to pull a decoded frame out of the decoder produced.
#[derive(Clone, Copy, PartialEq, Eq, Structural, Debug)]
pub enum DecodeOutcome {
    /// A frame is ready to be processed.
    FrameReady,
    /// The stream is over.
    EndOfStream,
    /// The decoder reported a system error code.
    SystemError(i32),
    /// An unrecoverable decode fault.
    DecodeFault,
}

/// The decode loop's reaction to one receive attempt.
#[derive(Clone, Copy, PartialEq, Eq, Structural, Debug)]
pub enum ReceiveDecision {
    /// Process the frame, then try to receive the next one.
    ProcessFrame,
    /// No frame now: feed the decoder more input, or loop or stop at the
    /// stream's end.
    NoFrame,
    /// A genuine decode fault; it propagates and ends the process.
    Fatal,
}

/// The system error code that means "the decoder needs more input before
/// it can hand out another frame": transient, never a fault.
pub const DECODER_NEEDS_INPUT: i32 = 11;

pub open spec fn receive_decision_spec(outcome: DecodeOutcome) -> ReceiveDecision {
    match outcome {
        DecodeOutcome::FrameReady => ReceiveDecision::ProcessFrame,
        DecodeOutcome::EndOfStream => ReceiveDecision::NoFrame,
        DecodeOutcome::SystemError(code) => if code == DECODER_NEEDS_INPUT {
            ReceiveDecision::NoFrame
        } else {
            ReceiveDecision::Fatal
        },
        DecodeOutcome::DecodeFault => ReceiveDecision::Fatal,
    }
}

/// Sorts one decode outcome into the loop's three reactions: a ready
/// frame is processed, the end of the stream and a decoder asking for
/// more input are transient, everything else is fatal.
pub fn receive_frame_decision(outcome: &DecodeOutcome) -> (r: ReceiveDecision)
    ensures
        r == receive_decision_spec(*outcome),
{
    match outcome {
        DecodeOutcome::FrameReady => ReceiveDecision::ProcessFrame,
        DecodeOutcome::EndOfStream => ReceiveDecision::NoFrame,
        DecodeOutcome::SystemError(code) => {
            if *code == DECODER_NEEDS_INPUT {
                ReceiveDecision::NoFrame
            } else {
                ReceiveDecision::Fatal
            }
        },
        DecodeOutcome::DecodeFault => ReceiveDecision::Fatal,
    }
}

/// The pixel format and dimensions a scaler was built for; the stream may
/// change both mid-flight, for instance when an advertisement is spliced
/// in.
#[derive(Clone, Copy, PartialEq, Eq, Structural, Debug)]
pub struct FrameFormat {
    pub pixel_format: u32,
    pub width: u32,
    pub height: u32,
}

/// Whether the incoming frame no longer matches what the active scaler
/// expects, so the scaler must be rebuilt before the next conversion.
pub fn has_frame_format_changed(expected: &FrameFormat, incoming: &FrameFormat) -> (r: bool)
    ensures
        r == (expected.pixel_format != incoming.pixel_format || expected.width != incoming.width
            || expected.height != incoming.height),
{
    expected.pixel_format != incoming.pixel_format || expected.width != incoming.width
        || expected.height != incoming.height
}

/// The presentation time of a stream timestamp, in milliseconds: the
/// timestamp scaled by the stream's rational time base.  Absent when the
/// product leaves the 64-bit range.
pub fn pts_to_millis(pts: i64, time_base_num: u32, time_base_den: u32) -> (r: Option<i64>)
    requires
        pts >= 0,
        time_base_den > 0,
    ensures
        r is Some <==> pts * time_base_num * 1000 / (time_base_den as int) <= i64::MAX,
        r is Some ==> r->Some_0 == pts * time_base_num * 1000 / (time_base_den as int),
{
    proof {
        assert((pts as int) * (time_base_num as int) <= 0x7FFF_FFFF_FFFF_FFFF * 0xFFFF_FFFF)
            by (nonlinear_arith)
            requires
                0 <= pts as int <= 0x7FFF_FFFF_FFFF_FFFF,
                0 <= time_base_num as int <= 0xFFFF_FFFF,
        ;
    }
    let product: u128 = (pts as u128) * (time_base_num as u128) * 1000;
    let scaled: u128 = product / (time_base_den as u128);
    if scaled <= i64::MAX as u128 {
        Some(scaled as i64)
    } else {
        None
    }
}

/// Whether a frame at `pt` is delivered: always for the first frame, and
/// afterwards only when more than the delivery interval has elapsed since
/// the last delivered frame's presentation time.
pub open spec fn should_deliver_spec(previous_ms: int, presentation_ms: int) -> bool {
    presentation_ms - previous_ms > DELIVERY_INTERVAL_MS || previous_ms == 0
}

/// What one decoded frame led to.
#[derive(Clone, Copy, PartialEq, Eq, Structural, Debug)]
pub enum PublishOutcome {
    /// Too soon after the last delivered frame: skipped, nothing copied.
    Throttled,
    /// No consumer request was pending: skipped on the cheapest path,
    /// nothing copied, the frame is dropped rather than buffered.
    NoRequest,
    /// The frame was written to the shared segment and the reply sent,
    /// in that order.
    Delivered,
}

/// The delivery pacing state of the producer, plus its two run-mode
/// switches.
pub struct FramePacer {
    previous_presentation_ms: i64,
    infinite_loop: bool,
    skip_sleep: bool,
}

impl FramePacer {
    /// The presentation time of the last delivered frame, `0` before any.
    pub closed spec fn previous_ms(&self) -> i64 {
        self.previous_presentation_ms
    }

    pub closed spec fn infinite_loop_spec(&self) -> bool {
        self.infinite_loop
    }

    pub closed spec fn skip_sleep_spec(&self) -> bool {
        self.skip_sleep
    }

    pub fn new() -> (r: Self)
        ensures
            r.previous_ms() == 0,
            !r.infinite_loop_spec(),
            !r.skip_sleep_spec(),
    {
        FramePacer { previous_presentation_ms: 0, infinite_loop: false, skip_sleep: false }
    }

    /// Whether the source is replayed from the start when it ends.
    pub fn infinite_loop(&self) -> (r: bool)
        ensures
            r == self.infinite_loop_spec(),
    {
        self.infinite_loop
    }

    pub fn set_infinite_loop(&mut self, value: bool)
        ensures
            final(self).infinite_loop_spec() == value,
            final(self).previous_ms() == old(self).previous_ms(),
            final(self).skip_sleep_spec() == old(self).skip_sleep_spec(),
    {
        self.infinite_loop = value;
    }

    /// Whether the throughput-capping sleep after a delivery is skipped.
    pub fn skip_sleep(&self) -> (r: bool)
        ensures
            r == self.skip_sleep_spec(),
    {
        self.skip_sleep
    }

    pub fn set_skip_sleep(&mut self, value: bool)
        ensures
            final(self).skip_sleep_spec() == value,
            final(self).previous_ms() == old(self).previous_ms(),
            final(self).infinite_loop_spec() == old(self).infinite_loop_spec(),
    {
        self.skip_sleep = value;
    }

    /// Whether a frame at this presentation time would be delivered now.
    pub fn should_deliver(&self, presentation_ms: i64) -> (r: bool)
        ensures
            r == should_deliver_spec(self.previous_ms() as int, presentation_ms as int),
    {
        (presentation_ms as i128) - (self.previous_presentation_ms as i128)
            > DELIVERY_INTERVAL_MS as i128 || self.previous_presentation_ms == 0
    }

    /// Records that a frame at this presentation time was delivered, so
    /// pacing counts from it.
    pub fn mark_delivered(&mut self, presentation_ms: i64)
        ensures
            final(self).previous_ms() == presentation_ms,
            final(self).infinite_loop_spec() == old(self).infinite_loop_spec(),
            final(self).skip_sleep_spec() == old(self).skip_sleep_spec(),
    {
        self.previous_presentation_ms = presentation_ms;
    }

    /// The stream ended: in looping mode the source is sought back to the
    /// start and the timing state reset, otherwise the run is over.
    pub fn on_stream_end(&mut self) -> (restart: bool)
        ensures
            restart == old(self).infinite_loop_spec(),
            restart ==> final(self).previous_ms() == 0,
            !restart ==> *final(self) == *old(self),
            final(self).infinite_loop_spec() == old(self).infinite_loop_spec(),
            final(self).skip_sleep_spec() == old(self).skip_sleep_spec(),
    {
        if self.infinite_loop {
            self.previous_presentation_ms = 0;
            true
        } else {
            false
        }
    }

    /// One decoded frame's publication step.  If pacing allows and a
    /// consumer request is pending, the frame bytes are copied into the
    /// shared segment and only then is the reply sent -- the order the
    /// consumer's happens-before argument rests on.  Without a pending
    /// request the frame is dropped whole; too early, it is skipped
    /// before the channel is even polled.
    ///
    /// Deliberate asymmetry: this capture path writes without taking the
    /// segment's advisory lock, accepting that an unsynchronized reader
    /// could see a torn frame rather than stalling delivery; only the
    /// debug-canvas segment is lock-guarded.
    pub fn publish_frame(
        &mut self,
        channel: &mut SyncChannel,
        ns: &mut ShmNamespace,
        shared_memory: &SharedMemory,
        presentation_ms: i64,
        frame: &Vec<u8>,
    ) -> (r: PublishOutcome)
        requires
            shared_memory.attached(old(ns)),
            frame@.len() == shared_memory.size_spec(),
            old(channel)@.server_bound,
        ensures
            r is Throttled <==> !should_deliver_spec(
                old(self).previous_ms() as int,
                presentation_ms as int,
            ),
            r is NoRequest <==> (should_deliver_spec(
                old(self).previous_ms() as int,
                presentation_ms as int,
            ) && old(channel)@.request is None),
            r is Delivered <==> (should_deliver_spec(
                old(self).previous_ms() as int,
                presentation_ms as int,
            ) && old(channel)@.request is Some),
            r is Delivered ==> ({
                &&& final(ns).segment(shared_memory.id_spec()) == Some(
                    SegmentModel {
                        data: frame@,
                        locked: old(ns).segment(shared_memory.id_spec())->Some_0.locked,
                    },
                )
                &&& final(channel)@ == (if old(channel)@.client_bound {
                    ch_server_send(ch_server_take(old(channel)@), Seq::empty())
                } else {
                    ch_server_take(old(channel)@)
                })
                &&& final(self).previous_ms() == presentation_ms
            }),
            !(r is Delivered) ==> (*final(ns) == *old(ns) && *final(channel) == *old(channel)
                && *final(self) == *old(self)),
            forall|other: u32| other != shared_memory.id_spec() ==> final(ns).segment(other)
                == old(ns).segment(other),
            final(self).infinite_loop_spec() == old(self).infinite_loop_spec(),
            final(self).skip_sleep_spec() == old(self).skip_sleep_spec(),
    {
        if !self.should_deliver(presentation_ms) {
            return PublishOutcome::Throttled;
        }
        let mut request_buffer: Vec<u8> = Vec::new();
        match channel.server_receive(&mut request_buffer) {
            Err(_) => PublishOutcome::NoRequest,
            Ok((_, client)) => {
                shared_memory.write_bytes(ns, frame);
                self.previous_presentation_ms = presentation_ms;
                let reply_buffer: Vec<u8> = Vec::new();
                let _ = channel.server_send(&reply_buffer, &client);
                proof {
                    if old(channel)@.client_bound {
                        assert(channel@ =~= ch_server_send(
                            ch_server_take(old(channel)@),
                            Seq::empty(),
                        ));
                    } else {
                        assert(channel@ =~= ch_server_take(old(channel)@));
                    }
                }
                PublishOutcome::Delivered
            },
        }
    }
}

} // verus!
