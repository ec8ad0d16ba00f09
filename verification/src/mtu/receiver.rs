//! Framing of the sampled bit stream into characters and a message: wait
//! for an idle line, then for each start bit collect a frame, decode it,
//! and finish when a carriage return arrives.
use super::uart_framing::{extract_char_from_frame, frame_char, UartFrame};
use crate::bounded::{
    ascii_bytes, char_items, chars_clear, chars_collect, chars_len, chars_new, chars_push,
    frame_items, frame_new, frame_push, frame_slice, message_bytes,
};
use crate::uart_format::{
    data_mask, format_data_bits, format_total_bits, frame_of, lemma_decode_encode, UartFormat,
};
use vstd::prelude::*;

verus! {

/// Consecutive 1-bits that mark an idle line.
pub const MIN_IDLE_BITS: usize = 10;

/// How long to wait for a bit while idle or awaiting a start bit (ms).
pub const IDLE_WAIT_MS: u64 = 100;

/// How long to wait for the next bit of a frame before dropping it (ms).
pub const FRAME_BIT_TIMEOUT_MS: u64 = 2000;

#[derive(Debug, Clone, Copy, PartialEq, Eq, Structural)]
pub enum ReceiverPhase {
    /// Counting consecutive 1-bits until the line is idle.
    Syncing(usize),
    /// Waiting for a start bit (0).
    AwaitingStart,
    /// Collecting the bits of a frame.
    Collecting,
    /// A message has been received; nothing more is taken.
    Complete,
}

pub struct UartReceiver {
    format: UartFormat,
    phase: ReceiverPhase,
    frame_bits: heapless::Vec<u8, 16>,
    received_chars: heapless::Vec<char, 256>,
    frames_decoded: usize,
    frame_errors: usize,
}

pub struct ReceiverView {
    pub format: UartFormat,
    pub phase: ReceiverPhase,
    pub frame: Seq<u8>,
    pub chars: Seq<char>,
    pub frames_decoded: nat,
    pub frame_errors: nat,
}

/// The receiver's invariant: a frame being collected has begun with its
/// start bit and is not yet complete; the idle count is below its target;
/// the characters are ASCII and at
/// most 256.
pub open spec fn receiver_wf(v: ReceiverView) -> bool {
    &&& (v.phase == ReceiverPhase::Collecting) ==> (1 <= v.frame.len() < format_total_bits(
        v.format,
    ) && v.frame[0] == 0)
    &&& (v.phase matches ReceiverPhase::Syncing(n) ==> n < MIN_IDLE_BITS)
    &&& v.chars.len() <= 256
    &&& forall|i: int| 0 <= i < v.chars.len() ==> (#[trigger] v.chars[i] as u32) < 128
}

/// What a complete frame does: a decoded character is counted and kept
/// (while fewer than 256 are held), a parity mismatch counts as a frame
/// error, and a carriage return completes the message; a frame that does
/// not decode counts as a frame error.  Returns the new state and the
/// message, if completed.
pub open spec fn frame_done(v: ReceiverView, frame: Seq<u8>) -> (ReceiverView, Option<Seq<char>>) {
    match frame_char(frame, v.format) {
        Ok((ch, parity_ok)) => {
            let chars = if v.chars.len() < 256 {
                v.chars.push(ch)
            } else {
                v.chars
            };
            let errors = if parity_ok {
                v.frame_errors
            } else {
                v.frame_errors + 1
            };
            if ch == '\r' {
                (
                    ReceiverView {
                        phase: ReceiverPhase::Complete,
                        frame: seq![],
                        chars: seq![],
                        frames_decoded: v.frames_decoded + 1,
                        frame_errors: errors,
                        ..v
                    },
                    Some(chars),
                )
            } else {
                (
                    ReceiverView {
                        phase: ReceiverPhase::AwaitingStart,
                        frame: seq![],
                        chars,
                        frames_decoded: v.frames_decoded + 1,
                        frame_errors: errors,
                        ..v
                    },
                    None,
                )
            }
        },
        Err(_) => (
            ReceiverView {
                phase: ReceiverPhase::AwaitingStart,
                frame: seq![],
                frame_errors: v.frame_errors + 1,
                ..v
            },
            None,
        ),
    }
}

/// The receiver's response to one sampled bit.
pub open spec fn bit_step(v: ReceiverView, bit: u8) -> (ReceiverView, Option<Seq<char>>) {
    match v.phase {
        ReceiverPhase::Syncing(n) => if bit == 1 {
            (
                ReceiverView {
                    phase: if n + 1 >= MIN_IDLE_BITS {
                        ReceiverPhase::AwaitingStart
                    } else {
                        ReceiverPhase::Syncing((n + 1) as usize)
                    },
                    ..v
                },
                None,
            )
        } else {
            (ReceiverView { phase: ReceiverPhase::Syncing(0), ..v }, None)
        },
        ReceiverPhase::AwaitingStart => if bit == 0 {
            (ReceiverView { phase: ReceiverPhase::Collecting, frame: seq![0u8], ..v }, None)
        } else {
            (v, None)
        },
        ReceiverPhase::Collecting => {
            let frame = v.frame.push(bit);
            if frame.len() == format_total_bits(v.format) {
                frame_done(v, frame)
            } else {
                (ReceiverView { frame, ..v }, None)
            }
        },
        ReceiverPhase::Complete => (v, None),
    }
}

/// A wait for a bit that timed out: a frame being collected is dropped and
/// counted as a frame error; otherwise waiting goes on.
pub open spec fn timeout_step(v: ReceiverView) -> ReceiverView {
    if v.phase == ReceiverPhase::Collecting {
        ReceiverView {
            phase: ReceiverPhase::AwaitingStart,
            frame_errors: v.frame_errors + 1,
            ..v
        }
    } else {
        v
    }
}

/// The receiver after the sampled bits `bits`, with the last message it
/// completed, if any.
pub open spec fn feed_bits(v: ReceiverView, bits: Seq<u8>) -> (ReceiverView, Option<Seq<char>>)
    decreases bits.len(),
{
    if bits.len() == 0 {
        (v, None)
    } else {
        let prev = feed_bits(v, bits.drop_last());
        let next = bit_step(prev.0, bits.last());
        (next.0, if next.1 is Some {
            next.1
        } else {
            prev.1
        })
    }
}

/// The characters held after `ch` is kept.
pub open spec fn kept(chars: Seq<char>, ch: char) -> Seq<char> {
    if chars.len() < 256 {
        chars.push(ch)
    } else {
        chars
    }
}

/// A receiver awaiting a start bit that is sent the frame of an ASCII
/// character, in the receiver's format, decodes it without error: a
/// carriage return completes the message with it, any other character is
/// kept and the receiver awaits the next frame.
pub proof fn lemma_frame_received(v: ReceiverView, ch: u8)
    requires
        receiver_wf(v),
        v.phase == ReceiverPhase::AwaitingStart,
        ch < 128,
    ensures
        feed_bits(v, frame_of(ch, v.format)).0.frames_decoded == v.frames_decoded + 1,
        feed_bits(v, frame_of(ch, v.format)).0.frame_errors == v.frame_errors,
        ch != 13 ==> feed_bits(v, frame_of(ch, v.format)).0.phase == ReceiverPhase::AwaitingStart,
        ch != 13 ==> feed_bits(v, frame_of(ch, v.format)).0.chars == kept(v.chars, ch as char),
        ch != 13 ==> feed_bits(v, frame_of(ch, v.format)).1 is None,
        ch == 13 ==> feed_bits(v, frame_of(ch, v.format)).0.phase == ReceiverPhase::Complete,
        ch == 13 ==> feed_bits(v, frame_of(ch, v.format)).1 == Some(kept(v.chars, '\r')),
{
    let f = v.format;
    let bits = frame_of(ch, f);
    let total = format_total_bits(f) as int;
    lemma_frame_len(ch, f);
    lemma_collecting(v, bits, (total - 1) as nat);
    let w = feed_bits(v, bits.take(total - 1)).0;
    assert(bits.take(total - 1) =~= bits.drop_last());
    assert(w.frame.push(bits.last()) =~= bits);
    lemma_decode_encode(ch, f);
    assert(ch & data_mask(f) == ch) by {
        if format_data_bits(f) == 7 {
            assert(ch < 128 ==> ch & 0x7f == ch) by (bit_vector);
        } else {
            assert(ch & 0xff == ch) by (bit_vector);
        }
    }
}

/// The frame of a character has as many bits as the format's frames and
/// starts with the start bit.
proof fn lemma_frame_len(ch: u8, f: UartFormat)
    ensures
        frame_of(ch, f).len() == format_total_bits(f),
        frame_of(ch, f)[0] == 0,
        format_total_bits(f) >= 10,
{
}

/// While the first `k` bits of a frame arrive, the receiver collects them.
proof fn lemma_collecting(v: ReceiverView, bits: Seq<u8>, k: nat)
    requires
        receiver_wf(v),
        v.phase == ReceiverPhase::AwaitingStart,
        bits.len() == format_total_bits(v.format),
        bits[0] == 0,
        1 <= k < bits.len(),
    ensures
        feed_bits(v, bits.take(k as int)).0 == (ReceiverView {
            phase: ReceiverPhase::Collecting,
            frame: bits.take(k as int),
            ..v
        }),
        feed_bits(v, bits.take(k as int)).1 is None,
    decreases k,
{
    let t = bits.take(k as int);
    assert(t.drop_last() =~= bits.take(k - 1));
    if k == 1 {
        assert(bits.take(0) =~= Seq::<u8>::empty());
        assert(t =~= seq![0u8]);
    } else {
        lemma_collecting(v, bits, (k - 1) as nat);
        assert(bits.take(k - 1).push(bits[k - 1]) =~= t);
    }
}

impl UartReceiver {
    pub closed spec fn view(&self) -> ReceiverView {
        ReceiverView {
            format: self.format,
            phase: self.phase,
            frame: frame_items(self.frame_bits),
            chars: char_items(self.received_chars),
            frames_decoded: self.frames_decoded as nat,
            frame_errors: self.frame_errors as nat,
        }
    }

    pub open spec fn wf(&self) -> bool {
        receiver_wf(self.view())
    }

    /// A receiver for frames of `format`, waiting for an idle line.
    pub fn new(format: UartFormat) -> (res: Self)
        ensures
            res.wf(),
            res.view().format == format,
            res.view().phase == ReceiverPhase::Syncing(0),
            res.view().chars == Seq::<char>::empty(),
            res.view().frames_decoded == 0,
            res.view().frame_errors == 0,
    {
        UartReceiver {
            format,
            phase: ReceiverPhase::Syncing(0),
            frame_bits: frame_new(),
            received_chars: chars_new(),
            frames_decoded: 0,
            frame_errors: 0,
        }
    }

    pub fn phase(&self) -> (res: ReceiverPhase)
        ensures
            res == self.view().phase,
    {
        self.phase
    }

    /// A message has been received.
    pub fn is_complete(&self) -> (res: bool)
        ensures
            res == (self.view().phase == ReceiverPhase::Complete),
    {
        self.phase == ReceiverPhase::Complete
    }

    pub fn frames_decoded(&self) -> (res: usize)
        ensures
            res == self.view().frames_decoded,
    {
        self.frames_decoded
    }

    pub fn frame_errors(&self) -> (res: usize)
        ensures
            res == self.view().frame_errors,
    {
        self.frame_errors
    }

    /// Characters of an unfinished message.
    pub fn partial_len(&self) -> (res: usize)
        ensures
            res == self.view().chars.len(),
    {
        chars_len(&self.received_chars)
    }

    /// How long to wait for the next bit, in milliseconds.
    pub fn wait_ms(&self) -> (res: u64)
        ensures
            res == (if self.view().phase == ReceiverPhase::Collecting {
                FRAME_BIT_TIMEOUT_MS
            } else {
                IDLE_WAIT_MS
            }),
    {
        if self.phase == ReceiverPhase::Collecting {
            FRAME_BIT_TIMEOUT_MS
        } else {
            IDLE_WAIT_MS
        }
    }

    /// Takes one sampled bit; returns the message when this bit completed it.
    pub fn on_bit(&mut self, bit: u8) -> (res: Option<heapless::String<256>>)
        requires
            old(self).wf(),
            old(self).view().frame_errors < usize::MAX,
            old(self).view().frames_decoded < usize::MAX,
        ensures
            final(self).wf(),
            final(self).view() == bit_step(old(self).view(), bit).0,
            match (res, bit_step(old(self).view(), bit).1) {
                (Some(m), Some(cs)) => message_bytes(m) == ascii_bytes(cs),
                (None, None) => true,
                _ => false,
            },
    {
        match self.phase {
            ReceiverPhase::Syncing(n) => {
                if bit == 1 {
                    if n + 1 >= MIN_IDLE_BITS {
                        self.phase = ReceiverPhase::AwaitingStart;
                    } else {
                        self.phase = ReceiverPhase::Syncing(n + 1);
                    }
                } else {
                    self.phase = ReceiverPhase::Syncing(0);
                }
                None
            },
            ReceiverPhase::AwaitingStart => {
                if bit == 0 {
                    let mut frame = frame_new();
                    let _ = frame_push(&mut frame, 0);
                    assert(frame_items(frame) =~= seq![0u8]);
                    self.frame_bits = frame;
                    self.phase = ReceiverPhase::Collecting;
                }
                None
            },
            ReceiverPhase::Collecting => {
                let _ = frame_push(&mut self.frame_bits, bit);
                let frame_size = self.format.total_bits() as usize;
                if frame_slice(&self.frame_bits).len() == frame_size {
                    self.process_frame()
                } else {
                    None
                }
            },
            ReceiverPhase::Complete => None,
        }
    }

    fn process_frame(&mut self) -> (res: Option<heapless::String<256>>)
        requires
            receiver_wf(ReceiverView { phase: ReceiverPhase::AwaitingStart, ..old(self).view() }),
            old(self).view().frame.len() == format_total_bits(old(self).view().format),
            old(self).view().frame_errors < usize::MAX,
            old(self).view().frames_decoded < usize::MAX,
        ensures
            final(self).wf(),
            final(self).view() == frame_done(old(self).view(), old(self).view().frame).0,
            match (res, frame_done(old(self).view(), old(self).view().frame).1) {
                (Some(m), Some(cs)) => message_bytes(m) == ascii_bytes(cs),
                (None, None) => true,
                _ => false,
            },
    {
        let mut bits = frame_new();
        core::mem::swap(&mut bits, &mut self.frame_bits);
        let frame = UartFrame { bits, format: self.format };
        match extract_char_from_frame(&frame) {
            Ok((ch, parity_ok)) => {
                self.frames_decoded = self.frames_decoded + 1;
                let _ = chars_push(&mut self.received_chars, ch);
                if !parity_ok {
                    self.frame_errors = self.frame_errors + 1;
                }
                if ch == '\r' {
                    let message = chars_collect(&self.received_chars);
                    chars_clear(&mut self.received_chars);
                    self.phase = ReceiverPhase::Complete;
                    Some(message)
                } else {
                    self.phase = ReceiverPhase::AwaitingStart;
                    None
                }
            },
            Err(_) => {
                self.frame_errors = self.frame_errors + 1;
                self.phase = ReceiverPhase::AwaitingStart;
                None
            },
        }
    }

    /// A wait for the next bit timed out.
    pub fn on_timeout(&mut self)
        requires
            old(self).wf(),
            old(self).view().frame_errors < usize::MAX,
        ensures
            final(self).wf(),
            final(self).view() == timeout_step(old(self).view()),
    {
        if self.phase == ReceiverPhase::Collecting {
            self.frame_errors = self.frame_errors + 1;
            self.phase = ReceiverPhase::AwaitingStart;
        }
    }

    /// The operation stopped: a frame being collected is left incomplete
    /// and counts as a frame error.  Returns the frame error count.
    pub fn stop(&mut self) -> (res: usize)
        requires
            old(self).wf(),
            old(self).view().frame_errors < usize::MAX,
        ensures
            final(self).wf(),
            final(self).view() == timeout_step(old(self).view()),
            res == final(self).view().frame_errors,
    {
        self.on_timeout();
        self.frame_errors
    }
}

} // verus!
