use vstd::prelude::*;

verus! {

/// Transmit holding register (write) / receive holding register (read).
pub const THR_RHR: u8 = 0x00;

/// Interrupt enable register; with the divisor latch enabled, the divisor's high byte.
pub const IER: u8 = 0x01;

/// FIFO control register (write) / interrupt identification register (read).
pub const FCR_IIR: u8 = 0x02;

/// Line control register.
pub const LCR: u8 = 0x03;

/// Modem control register; bit 7 selects the clock prescaler.
pub const MCR: u8 = 0x04;

/// Line status register.
pub const LSR: u8 = 0x05;

/// Trigger level register / scratch pad register.
pub const TLR_SPR: u8 = 0x07;

/// Transmit FIFO level register (free space).
pub const TXLVL: u8 = 0x08;

/// Receive FIFO level register (bytes waiting).
pub const RXLVL: u8 = 0x09;

/// GPIO direction register.
pub const IODIR: u8 = 0x0A;

/// GPIO state register.
pub const IOSTATE: u8 = 0x0B;

/// GPIO interrupt enable register.
pub const IOINTENA: u8 = 0x0C;

/// GPIO control register.
pub const IOCONTROL: u8 = 0x0E;

/// Extra features control register.
pub const EFCR: u8 = 0x0F;

/// UARTs Channel A (TXA/RXA) and Channel B (TXB/RXB)
#[derive(Debug, Clone, Copy, PartialEq, Eq, Structural)]
pub enum Channel {
    /// UART A
    A,
    /// UART B
    B,
}

impl Channel {
    /// The channel's number in the register map: A is 0, B is 1.
    pub open spec fn spec_index(self) -> u8 {
        match self {
            Channel::A => 0,
            Channel::B => 1,
        }
    }

    /// The channel's number in the register map: A is 0, B is 1.
    #[verifier::when_used_as_spec(spec_index)]
    pub fn index(self) -> (r: u8)
        ensures
            r == self.spec_index(),
    {
        match self {
            Channel::A => 0,
            Channel::B => 1,
        }
    }

    /// The channel's name as text.
    pub fn name(self) -> (r: String)
        ensures
            r@ == (if self == Channel::A { seq!['A'] } else { seq!['B'] }),
    {
        match self {
            Channel::A => {
                proof {
                    reveal_strlit("A");
                }
                String::from_str("A")
            },
            Channel::B => {
                proof {
                    reveal_strlit("B");
                }
                String::from_str("B")
            },
        }
    }
}

/// The lowest 7-bit bus address that the chip answers to.
pub const ADDRESS_MIN: u8 = 0x48;

/// The highest 7-bit bus address that the chip answers to.
pub const ADDRESS_MAX: u8 = 0x57;

/// The 7-bit bus address that a raw address stands for: an address in the chip's
/// 7-bit range is taken as it is, any other is read as left-shifted by one.
pub open spec fn resolved_address(raw: u8) -> u8 {
    if ADDRESS_MIN <= raw <= ADDRESS_MAX {
        raw
    } else {
        raw / 2
    }
}

/// A raw address given in either of the two forms the chip's addresses come in:
/// 7-bit, or shifted left by one.
pub open spec fn accepted_address(raw: u8) -> bool {
    ||| ADDRESS_MIN <= raw <= ADDRESS_MAX
    ||| 2 * ADDRESS_MIN <= raw <= 2 * ADDRESS_MAX + 1
}

/// Normalizes a raw chip address to its 7-bit form.
pub fn resolve_address(raw: u8) -> (r: u8)
    ensures
        r == resolved_address(raw),
        r < 0x80,
        accepted_address(raw) ==> ADDRESS_MIN <= r <= ADDRESS_MAX,
{
    if ADDRESS_MIN <= raw && raw <= ADDRESS_MAX {
        raw
    } else {
        assert(raw >> 1 == raw / 2) by (bit_vector);
        raw >> 1
    }
}

/// An even address in the left-shifted range resolves to the address shifted
/// right by one, inside the 7-bit range; an address inside the 7-bit range
/// resolves to itself.
pub proof fn lemma_address_normalization(raw: u8)
    ensures
        2 * ADDRESS_MIN <= raw <= 2 * ADDRESS_MAX && raw % 2 == 0 ==> {
            &&& resolved_address(raw) == raw >> 1
            &&& ADDRESS_MIN <= resolved_address(raw) <= ADDRESS_MAX
        },
        ADDRESS_MIN <= raw <= ADDRESS_MAX ==> resolved_address(raw) == raw,
{
    assert(raw >> 1 == raw / 2) by (bit_vector);
}

/// The sub-address that selects register `register` of `channel` on the wire.
pub open spec fn subaddress_of(register: u8, channel: Channel) -> u8 {
    (register * 8 + channel.spec_index() * 2) as u8
}

/// The on-wire sub-address of a register: the offset in bits 3 to 6, the
/// channel in bit 1.
pub fn subaddress(register: u8, channel: Channel) -> (r: u8)
    requires
        register < 16,
    ensures
        r == subaddress_of(register, channel),
        r == (register << 3) | (channel.index() << 1),
        r as int == register * 8 + channel.index() * 2,
{
    let c = channel.index();
    let r = (register << 3) | (c << 1);
    assert((register << 3) | (c << 1) == register * 8 + c * 2) by (bit_vector)
        requires
            register < 16,
            c < 2,
    ;
    r
}

} // verus!
