//! The encoder's fixed configuration and the decisions of its packet loops.
//!
//! Driving a codec session means alternating calls into the codec with
//! decisions about what to call next. The decisions live here as a state
//! machine: the driver performs each `EncodeAction`, reports what came of it
//! as an `EncodeEvent`, and is told the next action.
use crate::pixel::PixelFormat;
use vstd::prelude::*;

verus! {

/// Nominal bit rate, in bits per second.
pub const BIT_RATE: usize = 1_000_000;

/// Hard cap on the bit rate, in bits per second.
pub const MAX_BIT_RATE: usize = 2_000_000;

/// Frames per second; the time base is one over this.
pub const FRAME_RATE: i32 = 30;

/// Frames between two key frames.
pub const GOP_SIZE: u32 = 30;

/// Frames submitted between two packet drains.
pub const BATCH_SIZE: usize = 10;

/// Parameters of an encode session.
#[derive(Clone, Copy, Debug, PartialEq, Eq, Structural)]
pub struct EncoderSettings {
    pub width: u32,
    pub height: u32,
    pub format: PixelFormat,
    pub bit_rate: usize,
    pub max_bit_rate: usize,
    /// Time base numerator.
    pub time_base_num: i32,
    /// Time base denominator.
    pub time_base_den: i32,
    pub gop: u32,
}

/// Session parameters for frames of the given size and layout.
pub fn encoder_settings(width: u32, height: u32, format: PixelFormat) -> (r: EncoderSettings)
    ensures
        r == (EncoderSettings {
            width,
            height,
            format,
            bit_rate: BIT_RATE,
            max_bit_rate: MAX_BIT_RATE,
            time_base_num: 1,
            time_base_den: FRAME_RATE,
            gop: GOP_SIZE,
        }),
{
    EncoderSettings {
        width,
        height,
        format,
        bit_rate: BIT_RATE,
        max_bit_rate: MAX_BIT_RATE,
        time_base_num: 1,
        time_base_den: FRAME_RATE,
        gop: GOP_SIZE,
    }
}

/// Where a packet loop stands.
#[derive(Clone, Copy, Debug, PartialEq, Eq, Structural)]
pub enum EncodePhase {
    /// Taking frames from the stream and submitting them.
    Reading,
    /// Polling packets after a batch; reading resumes on the retry signal.
    Draining,
    /// Polling packets after the stream ran dry; the loop ends on the retry
    /// signal.
    FinalDrain,
    /// Polling packets after the end marker; the loop ends at end of stream.
    Flushing,
    /// The loop is over and the packets kept are its result.
    Done,
    /// The loop is over and the packets kept are dropped.
    Failed,
}

/// What the driver is to do next.
#[derive(Clone, Copy, Debug, PartialEq, Eq, Structural)]
pub enum EncodeAction {
    /// Take one frame from the stream.
    ReadFrame,
    /// Submit the frame just taken.
    SubmitFrame,
    /// Submit the empty frame that marks the end of input.
    SubmitEndMarker,
    /// Ask the codec for a packet, keeping it if one comes.
    ReceivePacket,
    /// Return the packets kept.
    Finish,
    /// Drop the packets kept and report failure.
    Fail,
}

/// What came of the last action.
#[derive(Clone, Copy, Debug, PartialEq, Eq, Structural)]
pub enum EncodeEvent {
    /// The stream handed out a frame.
    FrameRead,
    /// The stream held no whole frame.
    NoFrame,
    /// The stream failed to hand out a frame.
    ReadFailed,
    /// The codec accepted the submission.
    Submitted,
    /// The codec refused the submission.
    SubmitFailed,
    /// The codec returned a packet.
    Packet,
    /// The codec has nothing yet and wants more input.
    Retry,
    /// The codec has returned its last packet.
    EndOfStream,
    /// The codec failed to return a packet.
    ReceiveFailed,
}

/// The state of one packet loop.
#[derive(Clone, Copy, Debug, PartialEq, Eq, Structural)]
pub struct EncodeLoop {
    pub phase: EncodePhase,
    /// Frames submitted since the loop began or last drained.
    pub in_batch: usize,
}

/// The loop that encodes what a stream holds, given how many whole frames
/// it held: nothing to do when there are none.
pub open spec fn encode_start(available: int) -> (EncodeLoop, EncodeAction) {
    if available == 0 {
        (EncodeLoop { phase: EncodePhase::Done, in_batch: 0 }, EncodeAction::Finish)
    } else {
        (EncodeLoop { phase: EncodePhase::Reading, in_batch: 0 }, EncodeAction::ReadFrame)
    }
}

/// One transition of a packet loop.
///
/// Reading: a frame is submitted; each `BATCH_SIZE`th accepted submission
/// since the last drain starts a drain; a dry stream starts the final drain. A drain keeps
/// polling while packets come and stops at the retry signal, which is flow
/// control and never a failure. A flush keeps polling through the retry
/// signal until end of stream. Any failure, and any event the phase does
/// not expect, fails the loop; a finished loop stays finished.
pub open spec fn encode_next(s: EncodeLoop, e: EncodeEvent) -> (EncodeLoop, EncodeAction) {
    let failed = (EncodeLoop { phase: EncodePhase::Failed, ..s }, EncodeAction::Fail);
    let done = (EncodeLoop { phase: EncodePhase::Done, ..s }, EncodeAction::Finish);
    match s.phase {
        EncodePhase::Reading => match e {
            EncodeEvent::FrameRead => (s, EncodeAction::SubmitFrame),
            EncodeEvent::Submitted => if s.in_batch + 1 >= BATCH_SIZE {
                (
                    EncodeLoop { phase: EncodePhase::Draining, in_batch: 0 },
                    EncodeAction::ReceivePacket,
                )
            } else {
                (
                    EncodeLoop { phase: EncodePhase::Reading, in_batch: (s.in_batch + 1) as usize },
                    EncodeAction::ReadFrame,
                )
            },
            EncodeEvent::NoFrame => (
                EncodeLoop { phase: EncodePhase::FinalDrain, ..s },
                EncodeAction::ReceivePacket,
            ),
            _ => failed,
        },
        EncodePhase::Draining => match e {
            EncodeEvent::Packet => (s, EncodeAction::ReceivePacket),
            EncodeEvent::Retry => (
                EncodeLoop { phase: EncodePhase::Reading, ..s },
                EncodeAction::ReadFrame,
            ),
            _ => failed,
        },
        EncodePhase::FinalDrain => match e {
            EncodeEvent::Packet => (s, EncodeAction::ReceivePacket),
            EncodeEvent::Retry => done,
            _ => failed,
        },
        EncodePhase::Flushing => match e {
            EncodeEvent::Submitted | EncodeEvent::Packet | EncodeEvent::Retry => (
                s,
                EncodeAction::ReceivePacket,
            ),
            EncodeEvent::EndOfStream => done,
            _ => failed,
        },
        EncodePhase::Done => (s, EncodeAction::Finish),
        EncodePhase::Failed => (s, EncodeAction::Fail),
    }
}

impl EncodeLoop {
    /// Starts encoding what a stream holds, given its count of whole frames.
    pub fn start(available: usize) -> (r: (EncodeLoop, EncodeAction))
        ensures
            r == encode_start(available as int),
    {
        if available == 0 {
            (EncodeLoop { phase: EncodePhase::Done, in_batch: 0 }, EncodeAction::Finish)
        } else {
            (EncodeLoop { phase: EncodePhase::Reading, in_batch: 0 }, EncodeAction::ReadFrame)
        }
    }

    /// Starts flushing the codec: the end marker goes first.
    pub fn start_flush() -> (r: (EncodeLoop, EncodeAction))
        ensures
            r == (
                EncodeLoop { phase: EncodePhase::Flushing, in_batch: 0 },
                EncodeAction::SubmitEndMarker,
            ),
    {
        (EncodeLoop { phase: EncodePhase::Flushing, in_batch: 0 }, EncodeAction::SubmitEndMarker)
    }

    /// The next state and action after `event`.
    pub fn step(&self, event: EncodeEvent) -> (r: (EncodeLoop, EncodeAction))
        ensures
            r == encode_next(*self, event),
    {
        let failed = (
            EncodeLoop { phase: EncodePhase::Failed, in_batch: self.in_batch },
            EncodeAction::Fail,
        );
        let done = (
            EncodeLoop { phase: EncodePhase::Done, in_batch: self.in_batch },
            EncodeAction::Finish,
        );
        match self.phase {
            EncodePhase::Reading => match event {
                EncodeEvent::FrameRead => (*self, EncodeAction::SubmitFrame),
                EncodeEvent::Submitted => {
                    if self.in_batch >= BATCH_SIZE - 1 {
                        (
                            EncodeLoop { phase: EncodePhase::Draining, in_batch: 0 },
                            EncodeAction::ReceivePacket,
                        )
                    } else {
                        (
                            EncodeLoop { phase: EncodePhase::Reading, in_batch: self.in_batch + 1 },
                            EncodeAction::ReadFrame,
                        )
                    }
                },
                EncodeEvent::NoFrame => (
                    EncodeLoop { phase: EncodePhase::FinalDrain, in_batch: self.in_batch },
                    EncodeAction::ReceivePacket,
                ),
                _ => failed,
            },
            EncodePhase::Draining => match event {
                EncodeEvent::Packet => (*self, EncodeAction::ReceivePacket),
                EncodeEvent::Retry => (
                    EncodeLoop { phase: EncodePhase::Reading, in_batch: self.in_batch },
                    EncodeAction::ReadFrame,
                ),
                _ => failed,
            },
            EncodePhase::FinalDrain => match event {
                EncodeEvent::Packet => (*self, EncodeAction::ReceivePacket),
                EncodeEvent::Retry => done,
                _ => failed,
            },
            EncodePhase::Flushing => match event {
                EncodeEvent::Submitted | EncodeEvent::Packet | EncodeEvent::Retry => (
                    *self,
                    EncodeAction::ReceivePacket,
                ),
                EncodeEvent::EndOfStream => done,
                _ => failed,
            },
            EncodePhase::Done => (*self, EncodeAction::Finish),
            EncodePhase::Failed => (*self, EncodeAction::Fail),
        }
    }

    /// Whether the loop is over, with or without a result.
    pub fn is_finished(&self) -> (r: bool)
        ensures
            r == (self.phase == EncodePhase::Done || self.phase == EncodePhase::Failed),
    {
        match self.phase {
            EncodePhase::Done | EncodePhase::Failed => true,
            _ => false,
        }
    }
}

/// The retry signal is flow control: while packets are being drained or
/// flushed it never fails the loop.
pub proof fn lemma_retry_never_fails(s: EncodeLoop)
    requires
        s.phase == EncodePhase::Draining || s.phase == EncodePhase::FinalDrain || s.phase
            == EncodePhase::Flushing,
    ensures
        encode_next(s, EncodeEvent::Retry).1 != EncodeAction::Fail,
        encode_next(s, EncodeEvent::Retry).0.phase != EncodePhase::Failed,
{
}

/// A failed submission ends the loop in failure, whatever was kept so far.
pub proof fn lemma_submit_failure_fails(s: EncodeLoop)
    requires
        s.phase == EncodePhase::Reading || s.phase == EncodePhase::Flushing,
    ensures
        encode_next(s, EncodeEvent::SubmitFailed).1 == EncodeAction::Fail,
        encode_next(s, EncodeEvent::SubmitFailed).0.phase == EncodePhase::Failed,
{
}

} // verus!
