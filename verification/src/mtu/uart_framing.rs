//! A received frame of bits and its decoding into a character.
use super::error::{MtuError, MtuResult};
use crate::bounded::{frame_items, frame_new, frame_push, frame_slice};
use crate::uart_format::{decode_frame, decode_uart_frame, format_total_bits, UartFormat};
use vstd::prelude::*;

verus! {

pub struct UartFrame {
    /// Max 16 bits per frame
    pub bits: heapless::Vec<u8, 16>,
    pub format: UartFormat,
}

/// What validating frame bits gives: the data and parity verdict, or why not.
pub open spec fn validate_bits(bits: Seq<u8>, format: UartFormat) -> MtuResult<(u8, bool)> {
    if bits.len() != format_total_bits(format) {
        Err(MtuError::FramingErrorInvalidBitCount)
    } else {
        match decode_frame(bits, format) {
            Some(r) => Ok(r),
            None => Err(MtuError::FramingError),
        }
    }
}

/// The character a frame carries: its data as an ASCII character with the
/// parity verdict; a data value above 127 is a framing error.
pub open spec fn frame_char(bits: Seq<u8>, format: UartFormat) -> MtuResult<(char, bool)> {
    match validate_bits(bits, format) {
        Ok((data, parity_ok)) => if data <= 127 {
            Ok((data as char, parity_ok))
        } else {
            Err(MtuError::FramingError)
        },
        Err(e) => Err(e),
    }
}

impl UartFrame {
    /// A frame of exactly as many bits as the format's frames have.
    pub fn new(bits: heapless::Vec<u8, 16>, format: UartFormat) -> (res: MtuResult<Self>)
        ensures
            match res {
                Ok(f) => frame_items(bits).len() == format_total_bits(format) && f.bits == bits
                    && f.format == format,
                Err(e) => frame_items(bits).len() != format_total_bits(format) && e
                    == MtuError::FramingError,
            },
    {
        let expected_bits = format.total_bits() as usize;
        if frame_slice(&bits).len() != expected_bits {
            return Err(MtuError::FramingError);
        }
        Ok(UartFrame { bits, format })
    }

    pub fn validate(&self) -> (res: MtuResult<(u8, bool)>)
        ensures
            res == validate_bits(frame_items(self.bits), self.format),
    {
        let expected_bits = self.format.total_bits() as usize;
        let slice = frame_slice(&self.bits);
        if slice.len() != expected_bits {
            return Err(MtuError::FramingErrorInvalidBitCount);
        }
        match decode_uart_frame(slice, self.format) {
            Some((data, parity_ok)) => Ok((data, parity_ok)),
            None => Err(MtuError::FramingError),
        }
    }
}

pub fn extract_char_from_frame(frame: &UartFrame) -> (res: MtuResult<(char, bool)>)
    ensures
        res == frame_char(frame_items(frame.bits), frame.format),
{
    let (data, parity_ok) = match frame.validate() {
        Ok(r) => r,
        Err(e) => return Err(e),
    };
    if data <= 127 {
        Ok((data as char, parity_ok))
    } else {
        Err(MtuError::FramingError)
    }
}

/// A frame of the given bits: a framing error when more than 16 bits are
/// given or their count does not match the format.
pub fn bits_to_frame(bits: &[u8], format: UartFormat) -> (res: MtuResult<UartFrame>)
    ensures
        match res {
            Ok(f) => bits@.len() <= 16 && bits@.len() == format_total_bits(format) && frame_items(
                f.bits,
            ) == bits@ && f.format == format,
            Err(e) => (bits@.len() > 16 || bits@.len() != format_total_bits(format)) && e
                == MtuError::FramingError,
        },
{
    let mut frame_bits = frame_new();
    let mut i: usize = 0;
    while i < bits.len()
        invariant
            i <= bits@.len(),
            frame_items(frame_bits) == bits@.take(i as int),
        decreases bits@.len() - i,
    {
        if frame_push(&mut frame_bits, bits[i]).is_err() {
            return Err(MtuError::FramingError);
        }
        i = i + 1;
        assert(frame_items(frame_bits) =~= bits@.take(i as int));
    }
    assert(bits@.take(i as int) =~= bits@);
    UartFrame::new(frame_bits, format)
}

} // verus!
