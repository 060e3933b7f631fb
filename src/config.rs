use vstd::prelude::*;

verus! {

/// Frequency of the crystal that clocks the chip, in Hz.
pub const CRYSTAL_FREQ: u32 = 1843200;

/// Parity of a UART's frames.
#[allow(missing_docs)]
#[derive(Debug, Clone, Copy, PartialEq, Eq, Structural)]
pub enum Parity {
    NoParity,
    Odd,
    Even,
    ForcedParity1,
    ForcedParity0,
}

/// The line control bits that select a parity: parity enable, even parity and
/// forced parity.
pub open spec fn parity_bits(parity: Parity) -> u8 {
    match parity {
        Parity::NoParity => 0x00,
        Parity::Odd => 0x08,
        Parity::Even => 0x18,
        Parity::ForcedParity1 => 0x28,
        Parity::ForcedParity0 => 0x38,
    }
}

/// The line control bits that select a word length; any length but 5, 6 and 7
/// selects 8 bits.
pub open spec fn word_length_bits(word_length: u8) -> u8 {
    if word_length == 5 {
        0x00
    } else if word_length == 6 {
        0x01
    } else if word_length == 7 {
        0x02
    } else {
        0x03
    }
}

/// The line control bit that selects two stop bits.
pub open spec fn stop_bits_bit(stop_bits: u8) -> u8 {
    if stop_bits == 2 {
        0x04
    } else {
        0x00
    }
}

/// The line control register that frames words as given, keeping the two high
/// bits of `current`.
pub open spec fn line_control_of(current: u8, word_length: u8, parity: Parity, stop_bits: u8) -> u8 {
    (current & 0xC0) | word_length_bits(word_length) | stop_bits_bit(stop_bits) | parity_bits(parity)
}

/// Composes the line control register: the two high bits of `current` are
/// kept, the rest is the word length code, the stop bit flag and the parity bits.
pub fn line_control_value(current: u8, word_length: u8, parity: Parity, stop_bits: u8) -> (r: u8)
    ensures
        r == line_control_of(current, word_length, parity, stop_bits),
        r & 0xC0 == current & 0xC0,
{
    let w: u8 = match word_length {
        5 => 0x00,
        6 => 0x01,
        7 => 0x02,
        _ => 0x03,
    };
    let s: u8 = if stop_bits == 2 {
        0x04
    } else {
        0x00
    };
    let p: u8 = match parity {
        Parity::NoParity => 0x00,
        Parity::Odd => 0x08,
        Parity::Even => 0x18,
        Parity::ForcedParity1 => 0x28,
        Parity::ForcedParity0 => 0x38,
    };
    let r = (current & 0xC0) | w | s | p;
    assert(r & 0xC0 == current & 0xC0) by (bit_vector)
        requires
            r == (current & 0xC0) | w | s | p,
            w < 4,
            s == 0 || s == 4,
            p == 0 || p == 0x08 || p == 0x18 || p == 0x28 || p == 0x38,
    ;
    r
}

/// The clock prescaler that a modem control register value selects: 1 when the
/// register reads 0, else 4.
pub open spec fn prescaler_of(mcr: u8) -> int {
    if mcr == 0 {
        1
    } else {
        4
    }
}

/// The baud rate divisor for a baud rate under the prescaler that `mcr` selects.
pub open spec fn divisor_of(mcr: u8, baud: u32) -> int {
    (CRYSTAL_FREQ as int / prescaler_of(mcr)) / (baud as int * 16)
}

/// Computes `(crystal / prescaler) / (baud * 16)` in integer division.
pub fn baud_divisor(mcr: u8, baud: u32) -> (r: u32)
    requires
        baud > 0,
    ensures
        r == divisor_of(mcr, baud),
        r <= CRYSTAL_FREQ / 16,
{
    let prescaler: u32 = if mcr == 0 {
        1
    } else {
        4
    };
    let clock: u32 = CRYSTAL_FREQ / prescaler;
    let rate: u64 = baud as u64 * 16;
    let d: u64 = clock as u64 / rate;
    assert(d <= clock / 16) by (nonlinear_arith)
        requires
            d == clock as int / rate as int,
            rate >= 16,
    {
        assert(clock as int / rate as int <= clock as int / 16) by {
            vstd::arithmetic::div_mod::lemma_div_is_ordered_by_denominator(clock as int, 16, rate as int);
        }
    }
    d as u32
}

/// Holds the framing parameters of a UART.
pub struct UartConfig {
    baud: u32,
    word_length: u8,
    parity: Parity,
    stop_bit: u8,
}

impl UartConfig {
    /// The baud rate.
    pub closed spec fn spec_baud(&self) -> u32 {
        self.baud
    }

    /// The word length in bits.
    pub closed spec fn spec_word_length(&self) -> u8 {
        self.word_length
    }

    /// The parity.
    pub closed spec fn spec_parity(&self) -> Parity {
        self.parity
    }

    /// The number of stop bits.
    pub closed spec fn spec_stop_bit(&self) -> u8 {
        self.stop_bit
    }

    /// A configuration the chip can be programmed with: a nonzero baud rate,
    /// words of 5 to 8 bits, and 1 or 2 stop bits.
    pub open spec fn valid(&self) -> bool {
        &&& self.spec_baud() > 0
        &&& 5 <= self.spec_word_length() <= 8
        &&& self.spec_stop_bit() == 1 || self.spec_stop_bit() == 2
    }

    /// Holds parameters for each individual UART: baud rate (at most 115200),
    /// word length (5 to 8 bits), parity and stop bits (1 or 2).
    pub fn new(baud: u32, word_length: u8, parity: Parity, stop_bit: u8) -> (r: Self)
        ensures
            r.spec_baud() == baud,
            r.spec_word_length() == word_length,
            r.spec_parity() == parity,
            r.spec_stop_bit() == stop_bit,
    {
        Self { baud, word_length, parity, stop_bit }
    }

    /// The same configuration with another baud rate.
    pub fn baudrate(self, baud: u32) -> (r: Self)
        ensures
            r.spec_baud() == baud,
            r.spec_word_length() == self.spec_word_length(),
            r.spec_parity() == self.spec_parity(),
            r.spec_stop_bit() == self.spec_stop_bit(),
    {
        Self { baud, ..self }
    }

    /// The baud rate.
    pub fn baud(&self) -> (r: u32)
        ensures
            r == self.spec_baud(),
    {
        self.baud
    }

    /// The word length in bits.
    pub fn word_length(&self) -> (r: u8)
        ensures
            r == self.spec_word_length(),
    {
        self.word_length
    }

    /// The parity.
    pub fn parity(&self) -> (r: Parity)
        ensures
            r == self.spec_parity(),
    {
        self.parity
    }

    /// The number of stop bits.
    pub fn stop_bit(&self) -> (r: u8)
        ensures
            r == self.spec_stop_bit(),
    {
        self.stop_bit
    }

    /// Whether the chip can be programmed with this configuration.
    pub fn is_valid(&self) -> (r: bool)
        ensures
            r == self.valid(),
    {
        self.baud > 0 && 5 <= self.word_length && self.word_length <= 8 && (self.stop_bit == 1
            || self.stop_bit == 2)
    }
}

impl Default for UartConfig {
    /// 115200 baud, 8 data bits, no parity, 1 stop bit.
    fn default() -> (r: Self)
        ensures
            r.spec_baud() == 115200,
            r.spec_word_length() == 8,
            r.spec_parity() == Parity::NoParity,
            r.spec_stop_bit() == 1,
    {
        Self { baud: 115200, word_length: 8, parity: Parity::NoParity, stop_bit: 1 }
    }
}

} // verus!
