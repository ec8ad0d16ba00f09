//! UART frame formats and the encoding of one character into frame bits.
//!
//! Supports common water meter UART formats:
//! - 7E1: 7 data bits, even parity, 1 stop bit (Sensus meters)
//! - 7E2: 7 data bits, even parity, 2 stop bits (Neptune meters)
//! - 8N1: 8 data bits, no parity, 1 stop bit (generic)
//! - 8E1: 8 data bits, even parity, 1 stop bit
//! - 7O1: 7 data bits, odd parity, 1 stop bit
//! - 8N2: 8 data bits, no parity, 2 stop bits
use crate::text::chars_eq;
use crate::text::chars_of;
use vstd::prelude::*;

verus! {

#[derive(Debug, Clone, Copy, PartialEq, Eq, Structural)]
pub enum UartFormat {
    /// 7 data bits, even parity, 1 stop bit (default)
    Format7E1,
    /// 7 data bits, even parity, 2 stop bits
    Format7E2,
    /// 8 data bits, no parity, 1 stop bit
    Format8N1,
    /// 8 data bits, even parity, 1 stop bit
    Format8E1,
    /// 7 data bits, odd parity, 1 stop bit
    Format7O1,
    /// 8 data bits, no parity, 2 stop bits
    Format8N2,
}

#[derive(Debug, Clone, Copy, PartialEq, Eq, Structural)]
pub enum Parity {
    NoParity,
    Even,
    Odd,
}

pub open spec fn format_data_bits(f: UartFormat) -> u8 {
    match f {
        UartFormat::Format7E1 | UartFormat::Format7E2 | UartFormat::Format7O1 => 7,
        UartFormat::Format8N1 | UartFormat::Format8E1 | UartFormat::Format8N2 => 8,
    }
}

pub open spec fn format_parity(f: UartFormat) -> Parity {
    match f {
        UartFormat::Format7E1 | UartFormat::Format7E2 | UartFormat::Format8E1 => Parity::Even,
        UartFormat::Format7O1 => Parity::Odd,
        UartFormat::Format8N1 | UartFormat::Format8N2 => Parity::NoParity,
    }
}

pub open spec fn format_stop_bits(f: UartFormat) -> u8 {
    match f {
        UartFormat::Format7E1
        | UartFormat::Format8N1
        | UartFormat::Format8E1
        | UartFormat::Format7O1 => 1,
        UartFormat::Format7E2 | UartFormat::Format8N2 => 2,
    }
}

/// Number of parity bits in a frame: one unless the format has no parity.
pub open spec fn format_parity_bits(f: UartFormat) -> u8 {
    if format_parity(f) != Parity::NoParity {
        1
    } else {
        0
    }
}

/// Start bit + data bits + parity bit (if any) + stop bits.
pub open spec fn format_total_bits(f: UartFormat) -> u8 {
    (1 + format_data_bits(f) + format_parity_bits(f) + format_stop_bits(f)) as u8
}

/// The canonical name, in upper case.
pub open spec fn format_name(f: UartFormat) -> Seq<char> {
    match f {
        UartFormat::Format7E1 => "7E1"@,
        UartFormat::Format7E2 => "7E2"@,
        UartFormat::Format8N1 => "8N1"@,
        UartFormat::Format8E1 => "8E1"@,
        UartFormat::Format7O1 => "7O1"@,
        UartFormat::Format8N2 => "8N2"@,
    }
}

/// ASCII upper-case letters to lower case, other characters unchanged.
pub open spec fn lower_char(c: char) -> char {
    if 65 <= (c as u32) <= 90 {
        ((c as u32) + 32) as char
    } else {
        c
    }
}

pub open spec fn lower(s: Seq<char>) -> Seq<char> {
    s.map_values(|c: char| lower_char(c))
}

/// The format a name denotes, case-insensitively.  (No character outside
/// ASCII lower-cases to a character of these names, so ASCII case folding
/// decides the match exactly as full Unicode lower-casing does.)
pub open spec fn format_from_name(s: Seq<char>) -> Option<UartFormat> {
    let l = lower(s);
    if l == "7e1"@ {
        Some(UartFormat::Format7E1)
    } else if l == "7e2"@ {
        Some(UartFormat::Format7E2)
    } else if l == "8n1"@ {
        Some(UartFormat::Format8N1)
    } else if l == "8e1"@ {
        Some(UartFormat::Format8E1)
    } else if l == "7o1"@ {
        Some(UartFormat::Format7O1)
    } else if l == "8n2"@ {
        Some(UartFormat::Format8N2)
    } else {
        None
    }
}

fn lower_chars(s: &Vec<char>) -> (res: Vec<char>)
    ensures
        res@ == lower(s@),
{
    let mut res: Vec<char> = Vec::new();
    let mut i: usize = 0;
    while i < s.len()
        invariant
            i <= s@.len(),
            res@ == lower(s@.take(i as int)),
        decreases s@.len() - i,
    {
        let c = s[i];
        let v = c as u32;
        let l = if 65 <= v && v <= 90 {
            ((v as u8) + 32) as char
        } else {
            c
        };
        res.push(l);
        i = i + 1;
        assert(lower(s@.take(i as int)) =~= lower(s@.take(i - 1)).push(lower_char(c)));
    }
    assert(s@.take(i as int) =~= s@);
    res
}

impl UartFormat {
    /// Parse UART format from string
    pub fn from_str(s: &str) -> (res: Option<Self>)
        ensures
            res == format_from_name(s@),
    {
        let l = lower_chars(&chars_of(s));
        if chars_eq(&l, "7e1") {
            Some(UartFormat::Format7E1)
        } else if chars_eq(&l, "7e2") {
            Some(UartFormat::Format7E2)
        } else if chars_eq(&l, "8n1") {
            Some(UartFormat::Format8N1)
        } else if chars_eq(&l, "8e1") {
            Some(UartFormat::Format8E1)
        } else if chars_eq(&l, "7o1") {
            Some(UartFormat::Format7O1)
        } else if chars_eq(&l, "8n2") {
            Some(UartFormat::Format8N2)
        } else {
            None
        }
    }

    /// Convert UART format to string
    pub fn as_str(&self) -> (res: &'static str)
        ensures
            res@ == format_name(*self),
    {
        match self {
            UartFormat::Format7E1 => "7E1",
            UartFormat::Format7E2 => "7E2",
            UartFormat::Format8N1 => "8N1",
            UartFormat::Format8E1 => "8E1",
            UartFormat::Format7O1 => "7O1",
            UartFormat::Format8N2 => "8N2",
        }
    }

    /// Get number of data bits
    pub fn data_bits(&self) -> (res: u8)
        ensures
            res == format_data_bits(*self),
    {
        match self {
            UartFormat::Format7E1 | UartFormat::Format7E2 | UartFormat::Format7O1 => 7,
            UartFormat::Format8N1 | UartFormat::Format8E1 | UartFormat::Format8N2 => 8,
        }
    }

    /// Get parity type
    pub fn parity(&self) -> (res: Parity)
        ensures
            res == format_parity(*self),
    {
        match self {
            UartFormat::Format7E1 | UartFormat::Format7E2 | UartFormat::Format8E1 => Parity::Even,
            UartFormat::Format7O1 => Parity::Odd,
            UartFormat::Format8N1 | UartFormat::Format8N2 => Parity::NoParity,
        }
    }

    /// Get number of stop bits
    pub fn stop_bits(&self) -> (res: u8)
        ensures
            res == format_stop_bits(*self),
    {
        match self {
            UartFormat::Format7E1
            | UartFormat::Format8N1
            | UartFormat::Format8E1
            | UartFormat::Format7O1 => 1,
            UartFormat::Format7E2 | UartFormat::Format8N2 => 2,
        }
    }

    /// Get total bits per frame (start + data + parity + stop)
    pub fn total_bits(&self) -> (res: u8)
        ensures
            res == format_total_bits(*self),
            res == 1 + format_data_bits(*self) + format_parity_bits(*self) + format_stop_bits(
                *self,
            ),
            10 <= res <= 11,
    {
        let parity_bits: u8 = if self.parity() != Parity::NoParity {
            1
        } else {
            0
        };
        1 + self.data_bits() + parity_bits + self.stop_bits()
    }
}

impl Default for UartFormat {
    /// The format used when none is chosen: 7E1.
    fn default() -> (res: Self)
        ensures
            res == UartFormat::Format7E1,
    {
        UartFormat::Format7E1
    }
}

/// Bit `i` (0 = least significant) of `x`.
pub open spec fn bit_of(x: u8, i: int) -> u8 {
    (x >> (i as u8)) & 1u8
}

/// Number of one bits among the lowest `k` bits of `x`.
pub open spec fn ones_below(x: u8, k: nat) -> nat
    decreases k,
{
    if k == 0 {
        0
    } else {
        ones_below(x, (k - 1) as nat) + bit_of(x, k - 1) as nat
    }
}

/// Number of one bits of `x` (`u8::count_ones`).
pub open spec fn popcount(x: u8) -> nat {
    ones_below(x, 8)
}

/// The mask that keeps the data bits of a format.
pub open spec fn data_mask(f: UartFormat) -> u8 {
    if format_data_bits(f) == 7 {
        0x7f
    } else {
        0xff
    }
}

/// The parity bits of a frame carrying `data`: the bit that makes the
/// number of ones even (or odd), or nothing.
pub open spec fn parity_seq(data: u8, f: UartFormat) -> Seq<u8> {
    match format_parity(f) {
        Parity::Even => seq![(popcount(data) % 2) as u8],
        Parity::Odd => seq![(1 - popcount(data) % 2) as u8],
        Parity::NoParity => seq![],
    }
}

/// The frame of `ch`: start bit 0, the data bits least significant first,
/// the parity bit if any, then the stop bits, all 1.
pub open spec fn frame_of(ch: u8, f: UartFormat) -> Seq<u8> {
    let data = ch & data_mask(f);
    seq![0u8] + Seq::new(format_data_bits(f) as nat, |i: int| bit_of(data, i)) + parity_seq(
        data,
        f,
    ) + Seq::new(format_stop_bits(f) as nat, |i: int| 1u8)
}

/// The data byte assembled from frame bits `1..=k`: each bit value shifted
/// to its position and combined with bitwise or.
pub open spec fn assembled_data(bits: Seq<u8>, k: nat) -> u8
    decreases k,
{
    if k == 0 {
        0
    } else {
        assembled_data(bits, (k - 1) as nat) | (bits[k as int] << ((k - 1) as u8))
    }
}

/// Whether the received parity bit matches the data.
pub open spec fn parity_matches(data: u8, pbit: u8, f: UartFormat) -> bool {
    match format_parity(f) {
        Parity::Even => pbit as nat == popcount(data) % 2,
        Parity::Odd => pbit as nat == 1 - popcount(data) % 2,
        Parity::NoParity => true,
    }
}

/// Decoding of frame bits: `None` when there are too few bits, the start
/// bit is not 0 or a stop bit is not 1; otherwise the data and whether the
/// parity bit matched.
pub open spec fn decode_frame(bits: Seq<u8>, f: UartFormat) -> Option<(u8, bool)> {
    let n = format_data_bits(f) as int;
    let stop_start = 1 + n + format_parity_bits(f);
    let data = assembled_data(bits, n as nat);
    if bits.len() < format_total_bits(f) {
        None
    } else if bits[0] != 0 {
        None
    } else if !(forall|i: int|
        stop_start <= i < stop_start + format_stop_bits(f) ==> #[trigger] bits[i] == 1) {
        None
    } else {
        Some((data, parity_matches(data, bits[1 + n], f)))
    }
}

proof fn lemma_ones_step(x: u8, i: u8)
    requires
        i < 8,
    ensures
        (x >> i) & 1 <= 1,
{
    assert((x >> i) & 1 <= 1) by (bit_vector);
}

/// Counts the one bits of a byte.
fn count_ones(x: u8) -> (res: u8)
    ensures
        res as nat == popcount(x),
        res <= 8,
{
    let mut ones: u8 = 0;
    let mut i: u8 = 0;
    while i < 8
        invariant
            i <= 8,
            ones as nat == ones_below(x, i as nat),
            ones <= i,
        decreases 8 - i,
    {
        proof {
            lemma_ones_step(x, i);
        }
        ones = ones + ((x >> i) & 1);
        i = i + 1;
    }
    ones
}

proof fn lemma_parity_bits(ones: u8)
    requires
        ones <= 8,
    ensures
        (ones & 1) as nat == ones as nat % 2,
        ((ones & 1) ^ 1) as nat == 1 - ones as nat % 2,
{
    assert((ones & 1) == ones % 2) by (bit_vector);
    assert(((ones & 1) ^ 1) == 1 - (ones % 2)) by (bit_vector)
        requires
            ones <= 8,
    ;
}

/// Encode a single ASCII character into UART frame bits
///
/// Returns a vector of bits (0 or 1) representing the complete UART frame:
/// [start_bit, data_bits..., parity_bit (if any), stop_bits...]
pub fn encode_uart_frame(ch: u8, format: UartFormat) -> (bits: Vec<u8>)
    ensures
        bits@ == frame_of(ch, format),
        bits@.len() == format_total_bits(format),
{
    let mut bits: Vec<u8> = Vec::new();
    bits.push(0);
    let data_bits = format.data_bits();
    let data_mask: u8 = if data_bits == 7 {
        0x7F
    } else {
        0xFF
    };
    let data = ch & data_mask;
    let ghost data_seq = Seq::new(data_bits as nat, |i: int| bit_of(data, i));
    let mut i: u8 = 0;
    while i < data_bits
        invariant
            i <= data_bits,
            data_bits == format_data_bits(format),
            bits@ == seq![0u8] + data_seq.take(i as int),
            data_seq == Seq::new(data_bits as nat, |i: int| bit_of(data, i)),
        decreases data_bits - i,
    {
        bits.push((data >> i) & 1);
        i = i + 1;
        assert(bits@ =~= seq![0u8] + data_seq.take(i as int));
    }
    assert(data_seq.take(i as int) =~= data_seq);
    let ghost before_parity = bits@;
    match format.parity() {
        Parity::Even => {
            let ones = count_ones(data);
            proof {
                lemma_parity_bits(ones);
            }
            bits.push(ones & 1);
        },
        Parity::Odd => {
            let ones = count_ones(data);
            proof {
                lemma_parity_bits(ones);
            }
            bits.push((ones & 1) ^ 1);
        },
        Parity::NoParity => {},
    }
    assert(bits@ =~= before_parity + parity_seq(data, format));
    let ghost before_stop = bits@;
    let stop_bits = format.stop_bits();
    let mut j: u8 = 0;
    while j < stop_bits
        invariant
            j <= stop_bits,
            stop_bits == format_stop_bits(format),
            bits@ == before_stop + Seq::new(j as nat, |i: int| 1u8),
        decreases stop_bits - j,
    {
        bits.push(1);
        j = j + 1;
        assert(bits@ =~= before_stop + Seq::new(j as nat, |i: int| 1u8));
    }
    assert(bits@ =~= frame_of(ch, format));
    bits
}

proof fn lemma_xor_parity(a: u8, p: u8)
    requires
        a <= 1,
    ensures
        ((a ^ p) == 0) == (p == a),
        ((a ^ p) == 1) == (p as int == 1 - a),
{
    assert(((a ^ p) == 0) == (p == a)) by (bit_vector)
        requires
            a <= 1,
    ;
    assert(((a ^ p) == 1) == (p as int == 1 - a)) by (bit_vector)
        requires
            a <= 1,
    ;
}

/// Decode UART frame bits into ASCII character
///
/// Returns (character, parity_ok) or None if frame is invalid
pub fn decode_uart_frame(bits: &[u8], format: UartFormat) -> (res: Option<(u8, bool)>)
    ensures
        res == decode_frame(bits@, format),
{
    let expected_bits = format.total_bits() as usize;
    if bits.len() < expected_bits {
        return None;
    }
    if bits[0] != 0 {
        return None;
    }
    let data_bits = format.data_bits();
    let mut data: u8 = 0;
    let mut i: u8 = 0;
    while i < data_bits
        invariant
            i <= data_bits,
            data_bits == format_data_bits(format),
            bits@.len() >= format_total_bits(format),
            data == assembled_data(bits@, i as nat),
        decreases data_bits - i,
    {
        data = data | (bits[1 + i as usize] << i);
        i = i + 1;
    }
    let parity_ok = match format.parity() {
        Parity::Even => {
            let parity_bit = bits[1 + data_bits as usize];
            let ones = count_ones(data);
            proof {
                lemma_parity_bits(ones);
                lemma_xor_parity(ones & 1, parity_bit);
            }
            ((ones & 1) ^ parity_bit) == 0
        },
        Parity::Odd => {
            let parity_bit = bits[1 + data_bits as usize];
            let ones = count_ones(data);
            proof {
                lemma_parity_bits(ones);
                lemma_xor_parity(ones & 1, parity_bit);
            }
            ((ones & 1) ^ parity_bit) == 1
        },
        Parity::NoParity => true,
    };
    let parity_bits: usize = if format.parity() != Parity::NoParity {
        1
    } else {
        0
    };
    let stop_bit_start = 1 + data_bits as usize + parity_bits;
    let stop_bits = format.stop_bits();
    let mut j: u8 = 0;
    while j < stop_bits
        invariant
            j <= stop_bits,
            stop_bits == format_stop_bits(format),
            stop_bit_start == 1 + format_data_bits(format) + format_parity_bits(format),
            bits@.len() >= format_total_bits(format),
            forall|k: int| stop_bit_start <= k < stop_bit_start + j ==> #[trigger] bits@[k] == 1,
        decreases stop_bits - j,
    {
        if bits[stop_bit_start + j as usize] != 1 {
            return None;
        }
        j = j + 1;
    }
    Some((data, parity_ok))
}

/// The lowest `k` bits set.
pub open spec fn low_mask(k: u8) -> u8 {
    ((1u16 << (k as u16)) - 1) as u8
}

proof fn lemma_assembled_low_bits(x: u8, j: u8)
    requires
        j < 8,
    ensures
        (x & low_mask(j)) | (((x >> j) & 1) << j) == x & low_mask((j + 1) as u8),
{
    let j1 = (j + 1) as u8;
    assert((x & (((1u16 << (j as u16)) - 1) as u8)) | (((x >> j) & 1) << j) == x & (((1u16 << (
    j1 as u16)) - 1) as u8)) by (bit_vector)
        requires
            j < 8,
            j1 == j + 1,
    ;
}

proof fn lemma_assembled_frame(ch: u8, f: UartFormat, k: u8)
    requires
        k <= format_data_bits(f),
    ensures
        assembled_data(frame_of(ch, f), k as nat) == (ch & data_mask(f)) & low_mask(k),
    decreases k,
{
    let data = ch & data_mask(f);
    if k == 0 {
        assert(data & (((1u16 << 0u16) - 1) as u8) == 0) by (bit_vector);
    } else {
        lemma_assembled_frame(ch, f, (k - 1) as u8);
        assert(frame_of(ch, f)[k as int] == bit_of(data, k - 1));
        lemma_assembled_low_bits(data, (k - 1) as u8);
    }
}

proof fn lemma_full_mask(ch: u8, f: UartFormat)
    ensures
        (ch & data_mask(f)) & low_mask(format_data_bits(f)) == ch & data_mask(f),
{
    if format_data_bits(f) == 7 {
        assert((ch & 0x7f) & (((1u16 << 7u16) - 1) as u8) == ch & 0x7f) by (bit_vector);
    } else {
        assert((ch & 0xff) & (((1u16 << 8u16) - 1) as u8) == ch & 0xff) by (bit_vector);
    }
}

/// Decoding the frame of a character gives back its data bits, with the
/// parity check passing, for every format.
pub proof fn lemma_decode_encode(ch: u8, f: UartFormat)
    ensures
        decode_frame(frame_of(ch, f), f) == Some((ch & data_mask(f), true)),
{
    let bits = frame_of(ch, f);
    let n = format_data_bits(f);
    let data = ch & data_mask(f);
    lemma_assembled_frame(ch, f, n);
    lemma_full_mask(ch, f);
    assert(assembled_data(bits, n as nat) == data);
    let stop_start = 1 + n + format_parity_bits(f);
    assert forall|i: int| stop_start <= i < stop_start + format_stop_bits(f) implies #[trigger] bits[i]
        == 1 by {}
    assert(bits[0] == 0);
    if format_parity(f) != Parity::NoParity {
        assert(bits[1 + n] == parity_seq(data, f)[0]);
    }
}

/// The name of a format parses back to that format.
/// The data bits `1..=k` added up, each shifted to its position.
pub open spec fn shifted_sum(bits: Seq<u8>, k: nat) -> int
    decreases k,
{
    if k == 0 {
        0
    } else {
        shifted_sum(bits, (k - 1) as nat) + (bits[k as int] << ((k - 1) as u8)) as int
    }
}

/// Or-ing a bit in above the bits already set adds its value.
proof fn lemma_or_adds(a: u8, b: u8, j: u8)
    requires
        j < 8,
        b <= 1,
        (a as u16) < (1u16 << (j as u16)),
    ensures
        ((a | (b << j)) as u16) == (a as u16) + ((b << j) as u16),
        ((a | (b << j)) as u16) < (1u16 << ((j + 1) as u16)),
{
    assert(((a | (b << j)) as u16) == (a as u16) + ((b << j) as u16) && ((a | (b << j)) as u16) < (
    1u16 << ((j + 1) as u16))) by (bit_vector)
        requires
            j < 8,
            b <= 1,
            (a as u16) < (1u16 << (j as u16)),
    ;
}

proof fn lemma_assembled_sum(bits: Seq<u8>, k: nat)
    requires
        k <= 8,
        k < bits.len(),
        forall|i: int| 0 <= i < bits.len() ==> #[trigger] bits[i] <= 1,
    ensures
        assembled_data(bits, k) as int == shifted_sum(bits, k),
        (assembled_data(bits, k) as u16) < (1u16 << (k as u16)),
    decreases k,
{
    if k == 0 {
        assert((0u8 as u16) < (1u16 << 0u16)) by (bit_vector);
    } else {
        lemma_assembled_sum(bits, (k - 1) as nat);
        let j = (k - 1) as u8;
        assert(bits[k as int] <= 1);
        lemma_or_adds(assembled_data(bits, (k - 1) as nat), bits[k as int], j);
        assert((j + 1) as u16 == k as u16);
    }
}

/// For a frame of 0/1 bits, the data decoding gives is the sum of the
/// data bits, each shifted left by its place (least significant first).
pub proof fn lemma_decoded_data_is_sum(bits: Seq<u8>, f: UartFormat)
    requires
        forall|i: int| 0 <= i < bits.len() ==> #[trigger] bits[i] <= 1,
    ensures
        decode_frame(bits, f) matches Some((d, _)) ==> d as int == shifted_sum(
            bits,
            format_data_bits(f) as nat,
        ),
{
    if decode_frame(bits, f) is Some {
        lemma_assembled_sum(bits, format_data_bits(f) as nat);
    }
}

/// The parity verdict of a decoded frame of 0/1 bits: with even parity it
/// holds exactly when the data ones and the parity bit add up to an even
/// count, with odd parity exactly when they add up to an odd count, and
/// without parity it always holds.
pub proof fn lemma_parity_verdict(bits: Seq<u8>, f: UartFormat)
    requires
        forall|i: int| 0 <= i < bits.len() ==> #[trigger] bits[i] <= 1,
    ensures
        decode_frame(bits, f) matches Some((d, ok)) ==> {
            let pbit = bits[1 + format_data_bits(f)];
            &&& format_parity(f) == Parity::Odd ==> (ok <==> (popcount(d) + pbit) % 2 == 1)
            &&& format_parity(f) == Parity::Even ==> (ok <==> (popcount(d) + pbit) % 2 == 0)
            &&& format_parity(f) == Parity::NoParity ==> ok
        },
{
    if decode_frame(bits, f) is Some {
        let n = format_data_bits(f) as int;
        assert(bits[1 + n] <= 1);
    }
}

/// The data of a frame depends only on its data bits.
proof fn lemma_assembled_same(b1: Seq<u8>, b2: Seq<u8>, k: nat)
    requires
        forall|i: int| 1 <= i <= k ==> b1[i] == b2[i],
    ensures
        assembled_data(b1, k) == assembled_data(b2, k),
    decreases k,
{
    if k > 0 {
        lemma_assembled_same(b1, b2, (k - 1) as nat);
    }
}

/// Flipping the parity bit of a correctly encoded frame keeps its data but
/// makes the parity check fail.
pub proof fn lemma_flipped_parity_detected(ch: u8, f: UartFormat)
    requires
        format_parity(f) != Parity::NoParity,
    ensures
        decode_frame(
            frame_of(ch, f).update(
                1 + format_data_bits(f),
                (1 - frame_of(ch, f)[1 + format_data_bits(f)]) as u8,
            ),
            f,
        ) == Some((ch & data_mask(f), false)),
{
    let n = format_data_bits(f) as int;
    let good = frame_of(ch, f);
    let bad = good.update(1 + n, (1 - good[1 + n]) as u8);
    lemma_decode_encode(ch, f);
    let data = ch & data_mask(f);
    assert(good[1 + n] == parity_seq(data, f)[0]);
    assert(good[1 + n] <= 1);
    lemma_assembled_same(good, bad, n as nat);
    let stop_start = 1 + n + format_parity_bits(f);
    assert forall|i: int| stop_start <= i < stop_start + format_stop_bits(f) implies #[trigger] bad[i]
        == 1 by {
        assert(bad[i] == good[i]);
    }
}

pub proof fn lemma_from_str_as_str(f: UartFormat)
    ensures
        format_from_name(format_name(f)) == Some(f),
{
    reveal_strlit("7E1");
    reveal_strlit("7E2");
    reveal_strlit("8N1");
    reveal_strlit("8E1");
    reveal_strlit("7O1");
    reveal_strlit("8N2");
    reveal_strlit("7e1");
    reveal_strlit("7e2");
    reveal_strlit("8n1");
    reveal_strlit("8e1");
    reveal_strlit("7o1");
    reveal_strlit("8n2");
    let l = lower(format_name(f));
    match f {
        UartFormat::Format7E1 => assert(l =~= "7e1"@),
        UartFormat::Format7E2 => {
            assert(l =~= "7e2"@);
            assert(l[2] != "7e1"@[2]);
        },
        UartFormat::Format8N1 => {
            assert(l =~= "8n1"@);
            assert(l[0] != "7e1"@[0]);
            assert(l[0] != "7e2"@[0]);
        },
        UartFormat::Format8E1 => {
            assert(l =~= "8e1"@);
            assert(l[0] != "7e1"@[0]);
            assert(l[0] != "7e2"@[0]);
            assert(l[1] != "8n1"@[1]);
        },
        UartFormat::Format7O1 => {
            assert(l =~= "7o1"@);
            assert(l[1] != "7e1"@[1]);
            assert(l[1] != "7e2"@[1]);
            assert(l[0] != "8n1"@[0]);
            assert(l[0] != "8e1"@[0]);
        },
        UartFormat::Format8N2 => {
            assert(l =~= "8n2"@);
            assert(l[0] != "7e1"@[0]);
            assert(l[0] != "7e2"@[0]);
            assert(l[2] != "8n1"@[2]);
            assert(l[1] != "8e1"@[1]);
            assert(l[0] != "7o1"@[0]);
        },
    }
}

} // verus!
