use vstd::prelude::*;

use crate::bus::{
    data_read, data_written, ends_in_failure, lemma_data_push, lemma_failure_after_success,
    failed_read, failed_write, read_value, written_value, register_read, register_write, succeeded_since, tx_empty,
    Bus, Transfer,
};
use crate::config::{baud_divisor, divisor_of, line_control_of, line_control_value, Parity, UartConfig};
use crate::gpio::{bit_of, pin_state_of, with_bit, with_bit_of, PinMode, PinState, GPIO};
use crate::interrupt::{
    decode_interrupt, event_of, features_of, features_value, FeaturesRegister,
    InterruptEventTest, IIR_CAUSE_MASK,
};
use crate::registers::{
    accepted_address, resolve_address, resolved_address, subaddress, Channel, ADDRESS_MAX,
    ADDRESS_MIN, EFCR, FCR_IIR, IER, IOCONTROL, IODIR, IOINTENA, IOSTATE, LCR, LSR, MCR, RXLVL, THR_RHR,
    TLR_SPR, TXLVL,
};

verus! {

/// What a driver operation that may wait on the chip, or that takes a
/// configuration, can fail with.
#[derive(Debug, PartialEq, Eq)]
pub enum Error<E> {
    /// The bus transport failed; its error is handed on as it came.
    Bus(E),
    /// The UART configuration cannot be programmed: a zero baud rate, a word
    /// length outside 5 to 8 bits, or a stop bit count other than 1 or 2.
    InvalidConfig,
    /// The chip did not report ready within the poll limit.
    Unresponsive,
}

/// A driver for one chip on a bus it owns.
pub struct SC16IS752<B> {
    address: u8,
    bus: B,
    fifo: [u8; 2],
    peek_flags: [bool; 2],
    peek_buf: [Option<u8>; 2],
    poll_limit: u64,
    log: Ghost<Seq<Transfer>>,
}

/// The other channel.
pub open spec fn other_channel(channel: Channel) -> Channel {
    match channel {
        Channel::A => Channel::B,
        Channel::B => Channel::A,
    }
}

/// The byte an `Option` holds, as a sequence of zero or one bytes.
pub open spec fn bytes_of(o: Option<u8>) -> Seq<u8> {
    match o {
        Some(b) => seq![b],
        None => Seq::empty(),
    }
}

/// The channel and pattern of the `k`-th scratch register check of a ping.
pub open spec fn ping_step_of(k: nat) -> (Channel, u8) {
    if k == 0 {
        (Channel::A, 0x55)
    } else if k == 1 {
        (Channel::A, 0xAA)
    } else if k == 2 {
        (Channel::B, 0x55)
    } else {
        (Channel::B, 0xAA)
    }
}

fn ping_step(k: u8) -> (r: (Channel, u8))
    requires
        k < 4,
    ensures
        r == ping_step_of(k as nat),
{
    match k {
        0 => (Channel::A, 0x55),
        1 => (Channel::A, 0xAA),
        2 => (Channel::B, 0x55),
        _ => (Channel::B, 0xAA),
    }
}

impl<B: Bus> SC16IS752<B> {
    /// The driver talks to a 7-bit address in the chip's range. `new`
    /// establishes this and no operation changes the address.
    pub open spec fn wf(&self) -> bool {
        ADDRESS_MIN <= self.spec_address() <= ADDRESS_MAX
    }

    /// Every bus transaction this driver has issued, oldest first.
    pub closed spec fn transfers(&self) -> Seq<Transfer> {
        self.log@
    }

    /// The 7-bit address the driver talks to.
    pub closed spec fn spec_address(&self) -> u8 {
        self.address
    }

    /// How many times a wait polls the line status before giving up.
    pub closed spec fn spec_poll_limit(&self) -> u64 {
        self.poll_limit
    }

    /// The receive level of `channel` as last read.
    pub closed spec fn cached_level(&self, channel: Channel) -> u8 {
        self.fifo[channel.spec_index() as int]
    }

    /// Whether a peek was requested on `channel`.
    pub closed spec fn peek_requested(&self, channel: Channel) -> bool {
        self.peek_flags[channel.spec_index() as int]
    }

    /// The byte buffered by the last peek on `channel`.
    pub closed spec fn peeked(&self, channel: Channel) -> Option<u8> {
        self.peek_buf[channel.spec_index() as int]
    }

    /// `self` and `other` agree on all but the transfer log.
    pub open spec fn same_state(&self, other: &Self) -> bool {
        &&& self.spec_address() == other.spec_address()
        &&& self.spec_poll_limit() == other.spec_poll_limit()
        &&& self.same_channels(other)
    }

    /// `self` and `other` agree on the per-channel receive state.
    pub open spec fn same_channels(&self, other: &Self) -> bool {
        &&& self.same_channel(other, Channel::A)
        &&& self.same_channel(other, Channel::B)
    }

    /// `self` and `other` agree on the receive state of `channel`.
    pub open spec fn same_channel(&self, other: &Self, channel: Channel) -> bool {
        &&& self.cached_level(channel) == other.cached_level(channel)
        &&& self.peek_requested(channel) == other.peek_requested(channel)
        &&& self.peeked(channel) == other.peeked(channel)
    }

    /// A successful read of `register` of `channel` from this chip.
    pub open spec fn rd(&self, channel: Channel, register: u8, value: u8) -> Transfer {
        register_read(self.spec_address(), channel, register, value)
    }

    /// A successful write of `value` to `register` of `channel` on this chip.
    pub open spec fn wr(&self, channel: Channel, register: u8, value: u8) -> Transfer {
        register_write(self.spec_address(), channel, register, value)
    }

    /// A read of `register` of `channel` on this chip that failed, the
    /// buffer holding `value` afterwards.
    pub open spec fn failed_rd(&self, channel: Channel, register: u8, value: u8) -> Transfer {
        failed_read(self.spec_address(), channel, register, value)
    }

    /// A write of `value` to `register` of `channel` on this chip that failed.
    pub open spec fn failed_wr(&self, channel: Channel, register: u8, value: u8) -> Transfer {
        failed_write(self.spec_address(), channel, register, value)
    }

    /// Binds a driver to `i2c`. The address may be given in 7-bit form
    /// (0x48 to 0x57) or shifted left by one; no bus traffic happens.
    pub fn new(device_address: u8, i2c: B) -> (r: Result<Self, B::Error>)
        requires
            accepted_address(device_address),
        ensures
            r matches Ok(d) && {
                &&& d.spec_address() == resolved_address(device_address)
                &&& d.spec_bus() == i2c
                &&& d.wf()
                &&& d.transfers() == Seq::<Transfer>::empty()
                &&& d.spec_poll_limit() == u64::MAX
                &&& forall|c: Channel|
                    {
                        &&& #[trigger] d.cached_level(c) == 0
                        &&& !d.peek_requested(c)
                        &&& d.peeked(c) is None
                    }
            },
    {
        let address = resolve_address(device_address);
        Ok(
            Self {
                address,
                bus: i2c,
                fifo: [0u8; 2],
                peek_flags: [false; 2],
                peek_buf: [None; 2],
                poll_limit: u64::MAX,
                log: Ghost(Seq::empty()),
            },
        )
    }

    /// Reads one register with a write-then-read transaction.
    fn read_register(&mut self, channel: Channel, register: u8) -> (r: Result<u8, B::Error>)
        requires
            register < 16,
        ensures
            final(self).same_state(old(self)),
            r matches Ok(v) ==> final(self).transfers() == old(self).transfers().push(
                old(self).rd(channel, register, v),
            ),
            r is Err ==> final(self).transfers() == old(self).transfers().push(
                old(self).failed_rd(
                    channel,
                    register,
                    read_value(final(self).transfers(), old(self).transfers().len() as int),
                ),
            ),
            r is Err ==> ends_in_failure(old(self).transfers(), final(self).transfers()),
    {
        let out: [u8; 1] = [subaddress(register, channel)];
        let mut buffer: [u8; 1] = [0];
        let res = self.bus.write_read(self.address, &out, &mut buffer);
        let value = buffer[0];
        let ghost ok = res is Ok;
        self.log = Ghost(
            self.log@.push(
                Transfer::WriteRead { address: self.address, bytes: out@, received: seq![value], ok },
            ),
        );
        assert(out@ == seq![out[0]]);
        match res {
            Ok(()) => Ok(value),
            Err(e) => Err(e),
        }
    }

    /// Writes one register with a single write transaction.
    fn write_register(&mut self, channel: Channel, register: u8, value: u8) -> (r: Result<
        (),
        B::Error,
    >)
        requires
            register < 16,
        ensures
            final(self).same_state(old(self)),
            r is Ok ==> final(self).transfers() == old(self).transfers().push(
                old(self).wr(channel, register, value),
            ),
            r is Err ==> final(self).transfers() == old(self).transfers().push(
                old(self).failed_wr(channel, register, value),
            ),
            r is Err ==> ends_in_failure(old(self).transfers(), final(self).transfers()),
    {
        let out: [u8; 2] = [subaddress(register, channel), value];
        let res = self.bus.write(self.address, &out);
        let ghost ok = res is Ok;
        self.log = Ghost(
            self.log@.push(Transfer::Write { address: self.address, bytes: out@, ok }),
        );
        assert(out@ == seq![out[0], out[1]]);
        res
    }

    /// `after` is `before` followed by a read of `register` and a write to it
    /// of `update` applied to the value that read returned.
    pub open spec fn read_modify_write(
        &self,
        before: Seq<Transfer>,
        after: Seq<Transfer>,
        channel: Channel,
        register: u8,
        update: spec_fn(u8) -> u8,
    ) -> bool {
        let v = read_value(after, before.len() as int);
        after == self.read_then_write(before, channel, register, v, update(v))
    }

    /// `after` is `before` followed by one successful read of `register`.
    pub open spec fn read_one(
        &self,
        before: Seq<Transfer>,
        after: Seq<Transfer>,
        channel: Channel,
        register: u8,
    ) -> bool {
        after == before.push(self.rd(channel, register, read_value(after, before.len() as int)))
    }

    /// `before` followed by a read of `register` that returned `v` and a
    /// write of `update` to it.
    pub open spec fn read_then_write(
        &self,
        before: Seq<Transfer>,
        channel: Channel,
        register: u8,
        v: u8,
        update: u8,
    ) -> Seq<Transfer> {
        before.push(self.rd(channel, register, v)).push(self.wr(channel, register, update))
    }

    /// Sets the direction of one GPIO pin: reads IODir, sets the pin's bit
    /// for output or clears it for input, and writes it back.
    pub fn gpio_set_pin_mode(&mut self, pin_number: GPIO, pin_direction: PinMode) -> (r: Result<
        (),
        B::Error,
    >)
        ensures
            final(self).same_state(old(self)),
            r is Ok ==> old(self).read_modify_write(
                old(self).transfers(),
                final(self).transfers(),
                Channel::A,
                IODIR,
                |v: u8| with_bit_of(v, pin_number.spec_index(), pin_direction == PinMode::Output),
            ),
            r is Err ==> ends_in_failure(old(self).transfers(), final(self).transfers()),
    {
        let v = self.read_register(Channel::A, IODIR)?;
        let update = with_bit(v, pin_number.index(), pin_direction == PinMode::Output);
        self.write_register(Channel::A, IODIR, update)
    }

    /// Drives one GPIO pin: reads IOState, sets the pin's bit for high or
    /// clears it for low, and writes it back.
    pub fn gpio_set_pin_state(&mut self, pin_number: GPIO, pin_state: PinState) -> (r: Result<
        (),
        B::Error,
    >)
        ensures
            final(self).same_state(old(self)),
            r is Ok ==> old(self).read_modify_write(
                old(self).transfers(),
                final(self).transfers(),
                Channel::A,
                IOSTATE,
                |v: u8| with_bit_of(v, pin_number.spec_index(), pin_state == PinState::High),
            ),
            r is Err ==> ends_in_failure(old(self).transfers(), final(self).transfers()),
    {
        let v = self.read_register(Channel::A, IOSTATE)?;
        let update = with_bit(v, pin_number.index(), pin_state == PinState::High);
        self.write_register(Channel::A, IOSTATE, update)
    }

    /// Reads the level of one GPIO pin from IOState.
    pub fn gpio_get_pin_state(&mut self, pin_number: GPIO) -> (r: Result<PinState, B::Error>)
        ensures
            final(self).same_state(old(self)),
            r matches Ok(state) ==> {
                let v = read_value(final(self).transfers(), old(self).transfers().len() as int);
                &&& old(self).read_one(old(self).transfers(), final(self).transfers(), Channel::A, IOSTATE)
                &&& state == if bit_of(v, pin_number.spec_index()) {
                    PinState::High
                } else {
                    PinState::Low
                }
            },
            r is Err ==> final(self).transfers() == old(self).transfers().push(
                old(self).failed_rd(
                    Channel::A,
                    IOSTATE,
                    read_value(final(self).transfers(), old(self).transfers().len() as int),
                ),
            ),
            r is Err ==> ends_in_failure(old(self).transfers(), final(self).transfers()),
    {
        let v = self.read_register(Channel::A, IOSTATE)?;
        Ok(pin_state_of(v, pin_number.index()))
    }

    /// Reads the whole IOState register.
    pub fn gpio_get_port_state(&mut self) -> (r: Result<u8, B::Error>)
        ensures
            final(self).same_state(old(self)),
            r matches Ok(v) ==> final(self).transfers() == old(self).transfers().push(
                old(self).rd(Channel::A, IOSTATE, v),
            ),
            r is Err ==> final(self).transfers() == old(self).transfers().push(
                old(self).failed_rd(
                    Channel::A,
                    IOSTATE,
                    read_value(final(self).transfers(), old(self).transfers().len() as int),
                ),
            ),
            r is Err ==> ends_in_failure(old(self).transfers(), final(self).transfers()),
    {
        self.read_register(Channel::A, IOSTATE)
    }

    /// Writes the whole IODir register: bit n set makes GPIOn an output.
    pub fn gpio_set_port_mode(&mut self, port_io: u8) -> (r: Result<(), B::Error>)
        ensures
            final(self).same_state(old(self)),
            r is Ok ==> final(self).transfers() == old(self).transfers().push(
                old(self).wr(Channel::A, IODIR, port_io),
            ),
            r is Err ==> final(self).transfers() == old(self).transfers().push(
                old(self).failed_wr(Channel::A, IODIR, port_io),
            ),
            r is Err ==> ends_in_failure(old(self).transfers(), final(self).transfers()),
    {
        self.write_register(Channel::A, IODIR, port_io)
    }

    /// Writes the whole IOState register.
    pub fn gpio_set_port_state(&mut self, port_state: u8) -> (r: Result<(), B::Error>)
        ensures
            final(self).same_state(old(self)),
            r is Ok ==> final(self).transfers() == old(self).transfers().push(
                old(self).wr(Channel::A, IOSTATE, port_state),
            ),
            r is Err ==> final(self).transfers() == old(self).transfers().push(
                old(self).failed_wr(Channel::A, IOSTATE, port_state),
            ),
            r is Err ==> ends_in_failure(old(self).transfers(), final(self).transfers()),
    {
        self.write_register(Channel::A, IOSTATE, port_state)
    }

    /// Writes the IOIntEna register: bit n set enables the interrupt of GPIOn.
    pub fn set_pin_interrupt(&mut self, io_interrupt_enable_register: u8) -> (r: Result<
        (),
        B::Error,
    >)
        ensures
            final(self).same_state(old(self)),
            r is Ok ==> final(self).transfers() == old(self).transfers().push(
                old(self).wr(Channel::A, IOINTENA, io_interrupt_enable_register),
            ),
            r is Err ==> final(self).transfers() == old(self).transfers().push(
                old(self).failed_wr(Channel::A, IOINTENA, io_interrupt_enable_register),
            ),
            r is Err ==> ends_in_failure(old(self).transfers(), final(self).transfers()),
    {
        self.write_register(Channel::A, IOINTENA, io_interrupt_enable_register)
    }

    /// Triggers a software reset: sets bit 3 of IOControl.
    pub fn reset_device(&mut self) -> (r: Result<(), B::Error>)
        ensures
            final(self).same_state(old(self)),
            r is Ok ==> old(self).read_modify_write(
                old(self).transfers(),
                final(self).transfers(),
                Channel::A,
                IOCONTROL,
                |v: u8| v | 0x08,
            ),
            r is Err ==> ends_in_failure(old(self).transfers(), final(self).transfers()),
    {
        let v = self.read_register(Channel::A, IOCONTROL)?;
        self.write_register(Channel::A, IOCONTROL, v | 0x08)
    }

    /// Sets (`state`) or clears bit 1 of IOControl, which gives GPIO4 to GPIO7
    /// to the modem pins.
    pub fn modem_pin(&mut self, state: bool) -> (r: Result<(), B::Error>)
        ensures
            final(self).same_state(old(self)),
            r is Ok ==> old(self).read_modify_write(
                old(self).transfers(),
                final(self).transfers(),
                Channel::A,
                IOCONTROL,
                |v: u8| with_bit_of(v, 1, state),
            ),
            r is Err ==> ends_in_failure(old(self).transfers(), final(self).transfers()),
    {
        let v = self.read_register(Channel::A, IOCONTROL)?;
        let update = with_bit(v, 1, state);
        self.write_register(Channel::A, IOCONTROL, update)
    }

    /// Sets (`latch`) or clears bit 0 of IOControl, which latches the GPIO
    /// inputs.
    pub fn gpio_latch(&mut self, latch: bool) -> (r: Result<(), B::Error>)
        ensures
            final(self).same_state(old(self)),
            r is Ok ==> old(self).read_modify_write(
                old(self).transfers(),
                final(self).transfers(),
                Channel::A,
                IOCONTROL,
                |v: u8| with_bit_of(v, 0, latch),
            ),
            r is Err ==> ends_in_failure(old(self).transfers(), final(self).transfers()),
    {
        let v = self.read_register(Channel::A, IOCONTROL)?;
        let update = with_bit(v, 0, latch);
        self.write_register(Channel::A, IOCONTROL, update)
    }

    /// Writes the interrupt enable register of `channel`.
    pub fn interrupt_control(&mut self, channel: Channel, interrupt_enable_register: u8) -> (r:
        Result<(), B::Error>)
        ensures
            final(self).same_state(old(self)),
            r is Ok ==> final(self).transfers() == old(self).transfers().push(
                old(self).wr(channel, IER, interrupt_enable_register),
            ),
            r is Err ==> final(self).transfers() == old(self).transfers().push(
                old(self).failed_wr(channel, IER, interrupt_enable_register),
            ),
            r is Err ==> ends_in_failure(old(self).transfers(), final(self).transfers()),
    {
        self.write_register(channel, IER, interrupt_enable_register)
    }

    /// Reads bit 0 of the interrupt identification register of `channel`
    /// (0 while an interrupt is pending).
    pub fn interrupt_pending_test(&mut self, channel: Channel) -> (r: Result<u8, B::Error>)
        ensures
            final(self).same_state(old(self)),
            r matches Ok(bit) ==> {
                let v = read_value(final(self).transfers(), old(self).transfers().len() as int);
                &&& old(self).read_one(old(self).transfers(), final(self).transfers(), channel, FCR_IIR)
                &&& bit == v & 0x01
            },
            r is Err ==> final(self).transfers() == old(self).transfers().push(
                old(self).failed_rd(
                    channel,
                    FCR_IIR,
                    read_value(final(self).transfers(), old(self).transfers().len() as int),
                ),
            ),
            r is Err ==> ends_in_failure(old(self).transfers(), final(self).transfers()),
    {
        let v = self.read_register(channel, FCR_IIR)?;
        Ok(v & 0x01)
    }

    /// Reads the interrupt identification register of `channel` and decodes
    /// the cause of the pending interrupt.
    pub fn isr(&mut self, channel: Channel) -> (r: Result<InterruptEventTest, B::Error>)
        ensures
            final(self).same_state(old(self)),
            r matches Ok(event) ==> {
                let v = read_value(final(self).transfers(), old(self).transfers().len() as int);
                &&& old(self).read_one(old(self).transfers(), final(self).transfers(), channel, FCR_IIR)
                &&& event == event_of(v & IIR_CAUSE_MASK)
            },
            r is Err ==> final(self).transfers() == old(self).transfers().push(
                old(self).failed_rd(
                    channel,
                    FCR_IIR,
                    read_value(final(self).transfers(), old(self).transfers().len() as int),
                ),
            ),
            r is Err ==> ends_in_failure(old(self).transfers(), final(self).transfers()),
    {
        let v = self.read_register(channel, FCR_IIR)?;
        Ok(decode_interrupt(v))
    }

    /// Enables (`state`) or disables the FIFOs of `channel`: bit 0 of the FIFO
    /// control register.
    pub fn fifo_enable(&mut self, channel: Channel, state: bool) -> (r: Result<(), B::Error>)
        ensures
            final(self).same_state(old(self)),
            r is Ok ==> old(self).read_modify_write(
                old(self).transfers(),
                final(self).transfers(),
                channel,
                FCR_IIR,
                |v: u8| with_bit_of(v, 0, state),
            ),
            r is Err ==> ends_in_failure(old(self).transfers(), final(self).transfers()),
    {
        let v = self.read_register(channel, FCR_IIR)?;
        let update = with_bit(v, 0, state);
        self.write_register(channel, FCR_IIR, update)
    }

    /// Resets one FIFO of `channel`: `state` sets bit 1 of the FIFO control
    /// register, `!state` sets bit 2; never both.
    pub fn fifo_reset(&mut self, channel: Channel, state: bool) -> (r: Result<(), B::Error>)
        ensures
            final(self).same_state(old(self)),
            r is Ok ==> old(self).read_modify_write(
                old(self).transfers(),
                final(self).transfers(),
                channel,
                FCR_IIR,
                |v: u8| if state {
                        v | 0x02
                    } else {
                        v | 0x04
                    },
            ),
            r is Err ==> ends_in_failure(old(self).transfers(), final(self).transfers()),
    {
        let v = self.read_register(channel, FCR_IIR)?;
        let update = if state {
            v | 0x02
        } else {
            v | 0x04
        };
        self.write_register(channel, FCR_IIR, update)
    }

    /// Reads how much free space the transmit FIFO of `channel` has.
    pub fn fifo_available_space(&mut self, channel: Channel) -> (r: Result<u8, B::Error>)
        ensures
            final(self).same_state(old(self)),
            r matches Ok(n) ==> final(self).transfers() == old(self).transfers().push(
                old(self).rd(channel, TXLVL, n),
            ),
            r is Err ==> final(self).transfers() == old(self).transfers().push(
                old(self).failed_rd(
                    channel,
                    TXLVL,
                    read_value(final(self).transfers(), old(self).transfers().len() as int),
                ),
            ),
            r is Err ==> ends_in_failure(old(self).transfers(), final(self).transfers()),
    {
        self.read_register(channel, TXLVL)
    }

    /// Toggles one extra feature of `channel`. The flag is inverted:
    /// `enable == false` sets the feature's bit, `enable == true` clears it.
    pub fn enable_features(&mut self, channel: Channel, feature: FeaturesRegister, enable: bool) -> (r:
        Result<(), B::Error>)
        ensures
            final(self).same_state(old(self)),
            r is Ok ==> old(self).read_modify_write(
                old(self).transfers(),
                final(self).transfers(),
                channel,
                EFCR,
                |v: u8| features_of(v, feature, enable),
            ),
            r is Err ==> ends_in_failure(old(self).transfers(), final(self).transfers()),
    {
        let v = self.read_register(channel, EFCR)?;
        let update = features_value(v, feature, enable);
        self.write_register(channel, EFCR, update)
    }

    /// Sets the trigger level of one FIFO of `channel`: sets MCR bit 2 to give
    /// access to the trigger level register, sets bit 4 of the FIFO control
    /// register for the enhanced features, writes the level (for the transmit
    /// FIFO shifted into the high nibble), then restores the FIFO control
    /// register.
    pub fn fifo_set_trigger_level(&mut self, channel: Channel, rx_fifo: bool, length: u8) -> (r:
        Result<(), B::Error>)
        ensures
            final(self).same_state(old(self)),
            r is Ok ==> {
                let n = old(self).transfers().len() as int;
                let mcr = read_value(final(self).transfers(), n);
                let fcr = read_value(final(self).transfers(), n + 2);
                final(self).transfers() == old(self).read_then_write(
                    old(self).read_then_write(old(self).transfers(), channel, MCR, mcr, mcr | 0x04),
                    channel,
                    FCR_IIR,
                    fcr,
                    fcr | 0x10,
                ).push(
                    old(self).wr(
                        channel,
                        TLR_SPR,
                        if rx_fifo {
                            length
                        } else {
                            length << 4
                        },
                    ),
                ).push(old(self).wr(channel, FCR_IIR, fcr))
            },
            r is Err ==> ends_in_failure(old(self).transfers(), final(self).transfers()),
    {
        let ghost t0 = self.log@;
        let mcr = self.read_register(channel, MCR)?;
        let ghost t1 = self.log@;
        let res = self.write_register(channel, MCR, mcr | 0x04);
        if res.is_err() {
            proof {
                lemma_failure_after_success(t0, t1, self.log@);
            }
            return res;
        }
        let ghost t2 = self.log@;
        let fcr = match self.read_register(channel, FCR_IIR) {
            Ok(v) => v,
            Err(e) => {
                proof {
                    lemma_failure_after_success(t0, t2, self.log@);
                }
                return Err(e);
            },
        };
        let ghost t3 = self.log@;
        let res = self.write_register(channel, FCR_IIR, fcr | 0x10);
        if res.is_err() {
            proof {
                lemma_failure_after_success(t0, t3, self.log@);
            }
            return res;
        }
        let ghost t4 = self.log@;
        let level: u8 = if rx_fifo {
            length
        } else {
            length << 4
        };
        let res = self.write_register(channel, TLR_SPR, level);
        if res.is_err() {
            proof {
                lemma_failure_after_success(t0, t4, self.log@);
            }
            return res;
        }
        let ghost t5 = self.log@;
        let res = self.write_register(channel, FCR_IIR, fcr);
        if res.is_err() {
            proof {
                lemma_failure_after_success(t0, t5, self.log@);
            }
        }
        res
    }

    /// Reads how many bytes wait in the receive FIFO of `channel`, and keeps
    /// the count as the channel's last seen level.
    pub fn fifo_available_data(&mut self, channel: Channel) -> (r: Result<u8, B::Error>)
        ensures
            final(self).spec_address() == old(self).spec_address(),
            final(self).spec_poll_limit() == old(self).spec_poll_limit(),
            final(self).peek_requested(channel) == old(self).peek_requested(channel),
            final(self).peeked(channel) == old(self).peeked(channel),
            final(self).same_channel(old(self), other_channel(channel)),
            r matches Ok(n) ==> {
                &&& final(self).transfers() == old(self).transfers().push(
                    old(self).rd(channel, RXLVL, n),
                )
                &&& final(self).cached_level(channel) == n
            },
            r is Err ==> final(self).transfers() == old(self).transfers().push(
                old(self).failed_rd(
                    channel,
                    RXLVL,
                    read_value(final(self).transfers(), old(self).transfers().len() as int),
                ),
            ),
            r is Err ==> {
                &&& ends_in_failure(old(self).transfers(), final(self).transfers())
                &&& final(self).cached_level(channel) == old(self).cached_level(channel)
            },
    {
        let n = self.read_register(channel, RXLVL)?;
        match channel {
            Channel::A => self.fifo = [n, self.fifo[1]],
            Channel::B => self.fifo = [self.fifo[0], n],
        }
        Ok(n)
    }

    /// The transfers of programming the baud rate divisor: the prescaler
    /// select and line control registers read as `mcr` and `lcr`, the divisor
    /// latch enabled, the divisor's low and high bytes written, the latch
    /// disabled again.
    pub open spec fn baud_transfers(
        &self,
        before: Seq<Transfer>,
        channel: Channel,
        baud: u32,
        mcr: u8,
        lcr: u8,
    ) -> Seq<Transfer> {
        let d = divisor_of(mcr, baud);
        before.push(self.rd(channel, MCR, mcr)).push(self.rd(channel, LCR, lcr)).push(
            self.wr(channel, LCR, lcr | 0x80),
        ).push(self.wr(channel, THR_RHR, (d % 256) as u8)).push(
            self.wr(channel, IER, (d / 256 % 256) as u8),
        ).push(self.wr(channel, LCR, (lcr | 0x80) & 0x7F))
    }

    /// Programs the baud rate divisor of `channel` for `baudrate`. A zero
    /// rate is refused before any bus traffic.
    fn set_baudrate(&mut self, channel: Channel, baudrate: u32) -> (r: Result<(), Error<B::Error>>)
        ensures
            final(self).same_state(old(self)),
            baudrate == 0 ==> r is Err && r->Err_0 is InvalidConfig && final(self).transfers()
                == old(self).transfers(),
            baudrate > 0 ==> {
                &&& r is Ok ==> {
                    let n = old(self).transfers().len() as int;
                    final(self).transfers() == old(self).baud_transfers(
                        old(self).transfers(),
                        channel,
                        baudrate,
                        read_value(final(self).transfers(), n),
                        read_value(final(self).transfers(), n + 1),
                    )
                }
                &&& r is Err ==> r->Err_0 is Bus && ends_in_failure(
                    old(self).transfers(),
                    final(self).transfers(),
                )
            },
    {
        if baudrate == 0 {
            return Err(Error::InvalidConfig);
        }
        let ghost t0 = self.log@;
        let mcr = match self.read_register(channel, MCR) {
            Ok(v) => v,
            Err(e) => return Err(Error::Bus(e)),
        };
        let divisor = baud_divisor(mcr, baudrate);
        let ghost t1 = self.log@;
        let lcr = match self.read_register(channel, LCR) {
            Ok(v) => v,
            Err(e) => {
                proof {
                    lemma_failure_after_success(t0, t1, self.log@);
                }
                return Err(Error::Bus(e));
            },
        };
        let low: u8 = (divisor & 0xFF) as u8;
        let high: u8 = ((divisor >> 8) & 0xFF) as u8;
        assert(low == divisor % 256 && high == divisor / 256 % 256) by (bit_vector)
            requires
                low == (divisor & 0xFF) as u8,
                high == ((divisor >> 8) & 0xFF) as u8,
        ;
        let ghost t2 = self.log@;
        if let Err(e) = self.write_register(channel, LCR, lcr | 0x80) {
            proof {
                lemma_failure_after_success(t0, t2, self.log@);
            }
            return Err(Error::Bus(e));
        }
        let ghost t3 = self.log@;
        if let Err(e) = self.write_register(channel, THR_RHR, low) {
            proof {
                lemma_failure_after_success(t0, t3, self.log@);
            }
            return Err(Error::Bus(e));
        }
        let ghost t4 = self.log@;
        if let Err(e) = self.write_register(channel, IER, high) {
            proof {
                lemma_failure_after_success(t0, t4, self.log@);
            }
            return Err(Error::Bus(e));
        }
        let ghost t5 = self.log@;
        if let Err(e) = self.write_register(channel, LCR, (lcr | 0x80) & 0x7F) {
            proof {
                lemma_failure_after_success(t0, t5, self.log@);
            }
            return Err(Error::Bus(e));
        }
        Ok(())
    }

    /// Programs the framing of `channel`: reads the line control register and
    /// writes back the value `line_control_of` composes.
    fn set_line(&mut self, channel: Channel, data_length: u8, parity_select: Parity, stop_length: u8) -> (r:
        Result<(), B::Error>)
        requires
            5 <= data_length <= 8,
        ensures
            final(self).same_state(old(self)),
            r is Ok ==> old(self).read_modify_write(
                old(self).transfers(),
                final(self).transfers(),
                channel,
                LCR,
                |v: u8| line_control_of(v, data_length, parity_select, stop_length),
            ),
            r is Err ==> ends_in_failure(old(self).transfers(), final(self).transfers()),
    {
        let v = self.read_register(channel, LCR)?;
        let update = line_control_value(v, data_length, parity_select, stop_length);
        self.write_register(channel, LCR, update)
    }

    /// The transfers of initialising `channel` with `config` from `before`:
    /// FIFOs enabled, baud divisor programmed, framing programmed. The
    /// registers read are found in `after`.
    pub open spec fn init_transfers(
        &self,
        before: Seq<Transfer>,
        after: Seq<Transfer>,
        channel: Channel,
        config: UartConfig,
    ) -> Seq<Transfer> {
        let n = before.len() as int;
        let fcr = read_value(after, n);
        let lcr = read_value(after, n + 8);
        self.read_then_write(
            self.baud_transfers(
                self.read_then_write(before, channel, FCR_IIR, fcr, with_bit_of(fcr, 0, true)),
                channel,
                config.spec_baud(),
                read_value(after, n + 2),
                read_value(after, n + 3),
            ),
            channel,
            LCR,
            lcr,
            line_control_of(lcr, config.spec_word_length(), config.spec_parity(), config.spec_stop_bit()),
        )
    }

    /// Initialises a single UART using UartConfig struct: enables its FIFOs,
    /// programs the baud rate divisor, then the framing. An invalid
    /// configuration is refused before any bus traffic.
    pub fn initalise_uart(&mut self, channel: Channel, config: UartConfig) -> (r: Result<
        (),
        Error<B::Error>,
    >)
        ensures
            final(self).same_state(old(self)),
            !config.valid() ==> r is Err && r->Err_0 is InvalidConfig && final(self).transfers()
                == old(self).transfers(),
            config.valid() ==> {
                &&& r is Ok ==> final(self).transfers() == old(self).init_transfers(
                    old(self).transfers(),
                    final(self).transfers(),
                    channel,
                    config,
                )
                &&& r is Err ==> r->Err_0 is Bus && ends_in_failure(
                    old(self).transfers(),
                    final(self).transfers(),
                )
            },
    {
        if !config.is_valid() {
            return Err(Error::InvalidConfig);
        }
        let ghost t0 = self.log@;
        match self.fifo_enable(channel, true) {
            Ok(()) => {},
            Err(e) => return Err(Error::Bus(e)),
        }
        let ghost t1 = self.log@;
        match self.set_baudrate(channel, config.baud()) {
            Ok(()) => {},
            Err(e) => {
                proof {
                    lemma_failure_after_success(t0, t1, self.log@);
                }
                return Err(e);
            },
        }
        let ghost t2 = self.log@;
        match self.set_line(channel, config.word_length(), config.parity(), config.stop_bit()) {
            Ok(()) => Ok(()),
            Err(e) => {
                proof {
                    lemma_failure_after_success(t0, t2, self.log@);
                }
                Err(Error::Bus(e))
            },
        }
    }

    /// The number of line status polls a wait makes before it gives up.
    pub fn poll_limit(&self) -> (r: u64)
        ensures
            r == self.spec_poll_limit(),
    {
        self.poll_limit
    }

    /// Bounds the waits of `write_byte`, `write` and `flush` to `limit` line
    /// status polls each. The default is `u64::MAX`, in practice unbounded.
    pub fn set_poll_limit(&mut self, limit: u64)
        ensures
            final(self).spec_poll_limit() == limit,
            final(self).spec_address() == old(self).spec_address(),
            final(self).same_channels(old(self)),
            final(self).transfers() == old(self).transfers(),
    {
        self.poll_limit = limit;
    }

    /// `after` extends `before` by line status reads of `channel`, none of
    /// which found the transmit holding register empty.
    pub open spec fn polled_busy(&self, before: Seq<Transfer>, after: Seq<Transfer>, channel: Channel) -> bool {
        &&& before.len() <= after.len()
        &&& forall|i: int| 0 <= i < before.len() ==> after[i] == before[i]
        &&& forall|i: int|
            before.len() <= i < after.len() ==> {
                &&& after[i] == self.rd(channel, LSR, read_value(after, i))
                &&& !tx_empty(read_value(after, i))
            }
    }

    /// `after` extends `before` by line status reads of `channel`, at most
    /// the poll limit of them, of which the last, and only the last, found
    /// the transmit holding register empty.
    pub open spec fn waited(&self, before: Seq<Transfer>, after: Seq<Transfer>, channel: Channel) -> bool {
        &&& before.len() < after.len() <= before.len() + self.spec_poll_limit()
        &&& self.polled_busy(before, after.drop_last(), channel)
        &&& after.last() == self.rd(channel, LSR, read_value(after, after.len() - 1))
        &&& tx_empty(read_value(after, after.len() - 1))
    }

    /// Transfer `i` of `ts` is a line status read of `channel`, or a write
    /// to its data register past position `start` made right after a line
    /// status read that found the transmit holding register empty.
    pub open spec fn paced_at(&self, start: int, ts: Seq<Transfer>, i: int, channel: Channel) -> bool {
        ||| ts[i] == self.rd(channel, LSR, read_value(ts, i))
        ||| {
            &&& start < i
            &&& ts[i] == self.wr(channel, THR_RHR, written_value(ts, i))
            &&& ts[i - 1] == self.rd(channel, LSR, read_value(ts, i - 1))
            &&& tx_empty(read_value(ts, i - 1))
        }
    }

    /// Every transfer from `before` on in `after` is a line status read of
    /// `channel`, or a write to its data register made right after a line
    /// status read that found the transmit holding register empty.
    pub open spec fn tx_paced(&self, before: Seq<Transfer>, after: Seq<Transfer>, channel: Channel) -> bool {
        forall|i: int|
            before.len() <= i < after.len() ==> #[trigger] self.paced_at(
                before.len() as int,
                after,
                i,
                channel,
            )
    }

    proof fn lemma_paced_extends(&self, before: Seq<Transfer>, mid: Seq<Transfer>, after: Seq<Transfer>, channel: Channel)
        requires
            self.tx_paced(before, mid, channel),
            self.tx_paced(mid, after, channel),
            before.len() <= mid.len() <= after.len(),
            forall|i: int| 0 <= i < mid.len() ==> after[i] == mid[i],
        ensures
            self.tx_paced(before, after, channel),
    {
        assert forall|i: int| before.len() <= i < after.len() implies self.paced_at(
            before.len() as int,
            after,
            i,
            channel,
        ) by {
            if i < mid.len() {
                assert(self.paced_at(before.len() as int, mid, i, channel));
                assert(after[i] == mid[i]);
                if i > 0 {
                    assert(after[i - 1] == mid[i - 1]);
                }
            } else {
                assert(self.paced_at(mid.len() as int, after, i, channel));
            }
        }
    }

    /// Polls the line status of `channel` until the transmit holding register
    /// is empty, at most the poll limit times.
    fn wait_tx_empty(&mut self, channel: Channel) -> (r: Result<(), Error<B::Error>>)
        ensures
            final(self).same_state(old(self)),
            r is Ok ==> old(self).waited(old(self).transfers(), final(self).transfers(), channel),
            data_written(final(self).transfers(), old(self).spec_address(), channel) == data_written(
                old(self).transfers(),
                old(self).spec_address(),
                channel,
            ),
            r is Err ==> match r->Err_0 {
                Error::Unresponsive => {
                    &&& old(self).polled_busy(old(self).transfers(), final(self).transfers(), channel)
                    &&& final(self).transfers().len() == old(self).transfers().len() + old(
                        self,
                    ).spec_poll_limit()
                },
                Error::Bus(_) => ends_in_failure(old(self).transfers(), final(self).transfers()),
                Error::InvalidConfig => false,
            },
    {
        let ghost t0 = self.log@;
        let ghost start = *self;
        let mut polls: u64 = 0;
        while polls < self.poll_limit
            invariant
                self.same_state(&start),
                polls <= self.poll_limit,
                self.log@.len() == t0.len() + polls,
                start.polled_busy(t0, self.log@, channel),
                t0 == start.transfers(),
                start == *old(self),
                data_written(self.log@, start.spec_address(), channel) == data_written(
                    t0,
                    start.spec_address(),
                    channel,
                ),
            decreases self.poll_limit - polls,
        {
            let ghost before = self.log@;
            let status = match self.read_register(channel, LSR) {
                Ok(v) => v,
                Err(e) => {
                    proof {
                        lemma_failure_after_success(t0, before, self.log@);
                        lemma_data_push(
                            before,
                            start.failed_rd(channel, LSR, read_value(self.log@, before.len() as int)),
                            start.spec_address(),
                            channel,
                        );
                    }
                    return Err(Error::Bus(e));
                },
            };
            proof {
                lemma_data_push(before, start.rd(channel, LSR, status), start.spec_address(), channel);
                assert(read_value(self.log@, before.len() as int) == status);
            }
            if status & 0x20 != 0 {
                assert(self.log@.drop_last() =~= before);
                return Ok(());
            }
            polls = polls + 1;
        }
        Err(Error::Unresponsive)
    }

    /// Waits until the transmit holding register of `channel` is empty, so
    /// that pending transmission has started draining. Gives up with
    /// `Unresponsive` after the poll limit.
    pub fn flush(&mut self, channel: Channel) -> (r: Result<(), Error<B::Error>>)
        ensures
            final(self).same_state(old(self)),
            r is Ok ==> old(self).waited(old(self).transfers(), final(self).transfers(), channel),
            r is Err ==> match r->Err_0 {
                Error::Unresponsive => {
                    &&& old(self).polled_busy(old(self).transfers(), final(self).transfers(), channel)
                    &&& final(self).transfers().len() == old(self).transfers().len() + old(
                        self,
                    ).spec_poll_limit()
                },
                Error::Bus(_) => ends_in_failure(old(self).transfers(), final(self).transfers()),
                Error::InvalidConfig => false,
            },
    {
        self.wait_tx_empty(channel)
    }

    /// Waits until the transmit holding register of `channel` is empty, then
    /// writes `val` to the data register. The wait gives up with
    /// `Unresponsive` after the poll limit.
    pub fn write_byte(&mut self, channel: Channel, val: u8) -> (r: Result<(), Error<B::Error>>)
        ensures
            final(self).same_state(old(self)),
            r is Ok ==> {
                &&& old(self).waited(old(self).transfers(), final(self).transfers().drop_last(), channel)
                &&& final(self).transfers().last() == old(self).wr(channel, THR_RHR, val)
                &&& data_written(final(self).transfers(), old(self).spec_address(), channel)
                    == data_written(old(self).transfers(), old(self).spec_address(), channel).push(val)
                &&& succeeded_since(old(self).transfers(), final(self).transfers())
                &&& old(self).tx_paced(old(self).transfers(), final(self).transfers(), channel)
            },
            r is Err ==> data_written(final(self).transfers(), old(self).spec_address(), channel)
                == data_written(old(self).transfers(), old(self).spec_address(), channel),
            r is Err ==> match r->Err_0 {
                Error::Unresponsive => {
                    &&& old(self).polled_busy(old(self).transfers(), final(self).transfers(), channel)
                    &&& final(self).transfers().len() == old(self).transfers().len() + old(
                        self,
                    ).spec_poll_limit()
                },
                Error::Bus(_) => ends_in_failure(old(self).transfers(), final(self).transfers()),
                Error::InvalidConfig => false,
            },
    {
        let ghost t0 = self.log@;
        self.wait_tx_empty(channel)?;
        let ghost t1 = self.log@;
        assert(succeeded_since(t0, t1)) by {
            assert forall|i: int| t0.len() <= i < t1.len() implies t1[i].succeeded() by {
                if i < t1.len() - 1 {
                    assert(t1.drop_last()[i] == t1[i]);
                }
            }
        }
        match self.write_register(channel, THR_RHR, val) {
            Ok(()) => {
                proof {
                    lemma_data_push(t1, old(self).wr(channel, THR_RHR, val), old(self).spec_address(), channel);
                    let t2 = self.log@;
                    assert(t2.drop_last() =~= t1);
                    assert forall|i: int| t0.len() <= i < t2.len() implies old(self).paced_at(
                        t0.len() as int,
                        t2,
                        i,
                        channel,
                    ) by {
                        if i < t1.len() - 1 {
                            assert(t1.drop_last()[i] == t1[i]);
                            assert(t2[i] == t1[i]);
                        } else if i == t1.len() - 1 {
                            assert(t2[i] == t1[i]);
                        } else {
                            assert(t2[i - 1] == t1[i - 1]);
                        }
                    }
                }
                Ok(())
            },
            Err(e) => {
                proof {
                    lemma_failure_after_success(t0, t1, self.log@);
                    lemma_data_push(t1, old(self).failed_wr(channel, THR_RHR, val), old(self).spec_address(), channel);
                }
                Err(Error::Bus(e))
            },
        }
    }

    /// Writes `payload` to `channel` byte by byte, each after the transmit
    /// holding register reports empty. On an error, the bytes written so far
    /// are the payload's first ones.
    pub fn write(&mut self, channel: Channel, payload: &[u8]) -> (r: Result<(), Error<B::Error>>)
        ensures
            final(self).same_state(old(self)),
            r is Ok ==> {
                &&& data_written(final(self).transfers(), old(self).spec_address(), channel)
                    == data_written(old(self).transfers(), old(self).spec_address(), channel) + payload@
                &&& succeeded_since(old(self).transfers(), final(self).transfers())
                &&& old(self).tx_paced(old(self).transfers(), final(self).transfers(), channel)
                &&& payload.len() == 0 ==> final(self).transfers() == old(self).transfers()
            },
            r is Err ==> {
                let before = data_written(old(self).transfers(), old(self).spec_address(), channel);
                let after = data_written(final(self).transfers(), old(self).spec_address(), channel);
                let k = after.len() - before.len();
                &&& 0 <= k < payload.len()
                &&& after == before + payload@.subrange(0, k)
            },
            r is Err ==> match r->Err_0 {
                Error::Unresponsive => {
                    let t = final(self).transfers();
                    let limit = old(self).spec_poll_limit();
                    &&& t.len() >= old(self).transfers().len() + limit
                    &&& old(self).tx_paced(old(self).transfers(), t.take(t.len() - limit), channel)
                    &&& succeeded_since(old(self).transfers(), t.take(t.len() - limit))
                    &&& old(self).polled_busy(t.take(t.len() - limit), t, channel)
                },
                Error::Bus(_) => ends_in_failure(old(self).transfers(), final(self).transfers()),
                Error::InvalidConfig => false,
            },
    {
        let ghost t0 = self.log@;
        let ghost start = *self;
        let ghost d0 = data_written(t0, start.spec_address(), channel);
        let mut i: usize = 0;
        while i < payload.len()
            invariant
                start == *old(self),
                t0 == start.transfers(),
                d0 == data_written(t0, start.spec_address(), channel),
                self.same_state(&start),
                i <= payload.len(),
                succeeded_since(t0, self.log@),
                start.tx_paced(t0, self.log@, channel),
                i == 0 ==> self.log@ == t0,
                data_written(self.log@, start.spec_address(), channel) == d0 + payload@.subrange(
                    0,
                    i as int,
                ),
            decreases payload.len() - i,
        {
            let ghost before = self.log@;
            let ghost prev = *self;
            match self.write_byte(channel, payload[i]) {
                Ok(()) => {
                    proof {
                        assert forall|j: int| before.len() <= j < self.log@.len() implies start.paced_at(
                            before.len() as int,
                            self.log@,
                            j,
                            channel,
                        ) by {
                            assert(prev.paced_at(before.len() as int, self.log@, j, channel));
                        }
                        start.lemma_paced_extends(t0, before, self.log@, channel);
                    }
                },
                Err(e) => {
                    proof {
                        assert(d0 + payload@.subrange(0, i as int) =~= d0 + payload@.subrange(
                            0,
                            (d0 + payload@.subrange(0, i as int)).len() - d0.len(),
                        ));
                        match e {
                            Error::Bus(_) => lemma_failure_after_success(t0, before, self.log@),
                            Error::Unresponsive => {
                                let t = self.log@;
                                assert(t.take(t.len() - start.spec_poll_limit()) =~= before);
                            },
                            _ => {},
                        }
                    }
                    return Err(e);
                },
            }
            assert(payload@.subrange(0, i + 1) =~= payload@.subrange(0, i as int).push(payload@[i as int]));
            i = i + 1;
        }
        assert(payload@.subrange(0, i as int) =~= payload@);
        Ok(())
    }

    /// `self` and `other` agree on all but the transfer log and the last seen
    /// receive level of `channel`.
    pub open spec fn same_but_level(&self, other: &Self, channel: Channel) -> bool {
        &&& self.spec_address() == other.spec_address()
        &&& self.spec_poll_limit() == other.spec_poll_limit()
        &&& self.peek_requested(channel) == other.peek_requested(channel)
        &&& self.peeked(channel) == other.peeked(channel)
        &&& self.same_channel(other, other_channel(channel))
    }

    /// Reads one byte from `channel` if its receive FIFO holds any: queries
    /// the receive level, and reads the data register only when it is not
    /// zero. An empty FIFO gives `None`, which is no error.
    pub fn read_byte(&mut self, channel: Channel) -> (r: Result<Option<u8>, B::Error>)
        ensures
            final(self).same_but_level(old(self), channel),
            r matches Ok(None) ==> {
                &&& final(self).transfers() == old(self).transfers().push(old(self).rd(channel, RXLVL, 0))
                &&& final(self).cached_level(channel) == 0
            },
            r matches Ok(Some(b)) ==> {
                let level = read_value(final(self).transfers(), old(self).transfers().len() as int);
                &&& level != 0
                &&& final(self).cached_level(channel) == level
                &&& final(self).transfers() == old(self).transfers().push(
                    old(self).rd(channel, RXLVL, level),
                ).push(old(self).rd(channel, THR_RHR, b))
            },
            r matches Ok(o) ==> data_read(final(self).transfers(), old(self).spec_address(), channel)
                == data_read(old(self).transfers(), old(self).spec_address(), channel) + bytes_of(o),
            r is Err ==> ends_in_failure(old(self).transfers(), final(self).transfers()),
    {
        let ghost t0 = self.log@;
        let level = self.fifo_available_data(channel)?;
        let ghost t1 = self.log@;
        proof {
            lemma_data_push(t0, old(self).rd(channel, RXLVL, level), old(self).spec_address(), channel);
        }
        if level == 0 {
            assert(data_read(t0, old(self).spec_address(), channel) + Seq::<u8>::empty() =~= data_read(
                t0,
                old(self).spec_address(),
                channel,
            ));
            return Ok(None);
        }
        match self.read_register(channel, THR_RHR) {
            Ok(b) => {
                proof {
                    lemma_data_push(t1, old(self).rd(channel, THR_RHR, b), old(self).spec_address(), channel);
                    assert(data_read(t0, old(self).spec_address(), channel).push(b) =~= data_read(
                        t0,
                        old(self).spec_address(),
                        channel,
                    ) + seq![b]);
                }
                Ok(Some(b))
            },
            Err(e) => {
                proof {
                    lemma_failure_after_success(t0, t1, self.log@);
                }
                Err(e)
            },
        }
    }

    /// Reads up to `count` bytes from `channel` one at a time, stopping early
    /// when the receive FIFO reports empty.
    fn drain(&mut self, channel: Channel, count: u8) -> (r: Result<Vec<u8>, B::Error>)
        ensures
            final(self).same_but_level(old(self), channel),
            r matches Ok(buf) ==> {
                &&& buf.len() <= count
                &&& data_read(final(self).transfers(), old(self).spec_address(), channel) == data_read(
                    old(self).transfers(),
                    old(self).spec_address(),
                    channel,
                ) + buf@
                &&& buf.len() == count || final(self).transfers().last() == old(self).rd(
                    channel,
                    RXLVL,
                    0,
                )
                &&& succeeded_since(old(self).transfers(), final(self).transfers())
            },
            r is Err ==> ends_in_failure(old(self).transfers(), final(self).transfers()),
    {
        let ghost t0 = self.log@;
        let ghost start = *self;
        let mut buf: Vec<u8> = Vec::new();
        let mut i: u8 = 0;
        let mut dry = false;
        while i < count && !dry
            invariant
                start == *old(self),
                t0 == start.transfers(),
                self.same_but_level(&start, channel),
                i <= count,
                buf.len() == i,
                succeeded_since(t0, self.log@),
                data_read(self.log@, start.spec_address(), channel) == data_read(
                    t0,
                    start.spec_address(),
                    channel,
                ) + buf@,
                dry ==> self.log@.last() == start.rd(channel, RXLVL, 0),
            decreases count - i + if dry {
                0int
            } else {
                1int
            },
        {
            let ghost before = self.log@;
            let ghost prior = buf@;
            match self.read_byte(channel) {
                Ok(Some(b)) => {
                    buf.push(b);
                    i = i + 1;
                    assert(data_read(t0, start.spec_address(), channel) + prior + seq![b] =~= data_read(
                        t0,
                        start.spec_address(),
                        channel,
                    ) + buf@);
                },
                Ok(None) => {
                    dry = true;
                    assert(prior + Seq::<u8>::empty() =~= prior);
                },
                Err(e) => {
                    proof {
                        lemma_failure_after_success(t0, before, self.log@);
                    }
                    return Err(e);
                },
            }
        }
        Ok(buf)
    }

    /// Reads up to `quantity` bytes from `channel`, never more than its
    /// receive FIFO holds when the call starts; never waits for more. A
    /// `quantity` of 0 reads nothing.
    pub fn read(&mut self, channel: Channel, quantity: u8) -> (r: Result<Vec<u8>, B::Error>)
        ensures
            final(self).same_but_level(old(self), channel),
            r matches Ok(buf) ==> {
                let n = old(self).transfers().len() as int;
                let available = read_value(final(self).transfers(), n);
                &&& final(self).transfers()[n] == old(self).rd(channel, RXLVL, available)
                &&& buf.len() <= quantity
                &&& buf.len() <= available
                &&& data_read(final(self).transfers(), old(self).spec_address(), channel) == data_read(
                    old(self).transfers(),
                    old(self).spec_address(),
                    channel,
                ) + buf@
                &&& buf.len() == (if quantity < available {
                    quantity
                } else {
                    available
                }) || final(self).transfers().last() == old(self).rd(channel, RXLVL, 0)
                &&& succeeded_since(old(self).transfers(), final(self).transfers())
            },
            r is Err ==> ends_in_failure(old(self).transfers(), final(self).transfers()),
    {
        let ghost t0 = self.log@;
        let available = self.fifo_available_data(channel)?;
        let ghost t1 = self.log@;
        proof {
            lemma_data_push(t0, old(self).rd(channel, RXLVL, available), old(self).spec_address(), channel);
        }
        let count = if quantity < available {
            quantity
        } else {
            available
        };
        match self.drain(channel, count) {
            Ok(buf) => {
                assert(self.log@[t0.len() as int] == t1[t0.len() as int]);
                Ok(buf)
            },
            Err(e) => {
                proof {
                    lemma_failure_after_success(t0, t1, self.log@);
                }
                Err(e)
            },
        }
    }

    /// Reads every byte that the receive FIFO of `channel` holds when the
    /// call starts.
    pub fn read_all(&mut self, channel: Channel) -> (r: Result<Vec<u8>, B::Error>)
        ensures
            final(self).same_but_level(old(self), channel),
            r matches Ok(buf) ==> {
                let n = old(self).transfers().len() as int;
                let available = read_value(final(self).transfers(), n);
                &&& final(self).transfers()[n] == old(self).rd(channel, RXLVL, available)
                &&& buf.len() <= available
                &&& data_read(final(self).transfers(), old(self).spec_address(), channel) == data_read(
                    old(self).transfers(),
                    old(self).spec_address(),
                    channel,
                ) + buf@
                &&& buf.len() == available || final(self).transfers().last() == old(self).rd(
                    channel,
                    RXLVL,
                    0,
                )
                &&& succeeded_since(old(self).transfers(), final(self).transfers())
            },
            r is Err ==> ends_in_failure(old(self).transfers(), final(self).transfers()),
    {
        let ghost t0 = self.log@;
        let available = self.fifo_available_data(channel)?;
        let ghost t1 = self.log@;
        proof {
            lemma_data_push(t0, old(self).rd(channel, RXLVL, available), old(self).spec_address(), channel);
        }
        match self.drain(channel, available) {
            Ok(buf) => {
                assert(self.log@[t0.len() as int] == t1[t0.len() as int]);
                Ok(buf)
            },
            Err(e) => {
                proof {
                    lemma_failure_after_success(t0, t1, self.log@);
                }
                Err(e)
            },
        }
    }

    /// If a peek was requested on `channel`, reads one byte, if any, into the
    /// channel's peek buffer; otherwise does nothing. No call of this driver
    /// sets the request, so as things stand a peek issues no bus traffic.
    pub fn peek(&mut self, channel: Channel) -> (r: Result<(), B::Error>)
        ensures
            final(self).spec_address() == old(self).spec_address(),
            final(self).spec_poll_limit() == old(self).spec_poll_limit(),
            final(self).same_channel(old(self), other_channel(channel)),
            final(self).peek_requested(channel) == old(self).peek_requested(channel),
            !old(self).peek_requested(channel) ==> r is Ok && final(self).same_state(old(self))
                && final(self).transfers() == old(self).transfers(),
            old(self).peek_requested(channel) && r is Ok ==> {
                let n = old(self).transfers().len() as int;
                let level = read_value(final(self).transfers(), n);
                let b = read_value(final(self).transfers(), n + 1);
                &&& final(self).cached_level(channel) == level
                &&& level == 0 ==> {
                    &&& final(self).transfers() == old(self).transfers().push(
                        old(self).rd(channel, RXLVL, 0),
                    )
                    &&& final(self).peeked(channel) is None
                }
                &&& level != 0 ==> {
                    &&& final(self).transfers() == old(self).transfers().push(
                        old(self).rd(channel, RXLVL, level),
                    ).push(old(self).rd(channel, THR_RHR, b))
                    &&& final(self).peeked(channel) == Some(b)
                }
                &&& data_read(final(self).transfers(), old(self).spec_address(), channel) == data_read(
                    old(self).transfers(),
                    old(self).spec_address(),
                    channel,
                ) + bytes_of(final(self).peeked(channel))
            },
            r is Err ==> ends_in_failure(old(self).transfers(), final(self).transfers()),
    {
        let i: usize = if channel == Channel::A {
            0
        } else {
            1
        };
        if self.peek_flags[i] {
            let b = self.read_byte(channel)?;
            match channel {
                Channel::A => self.peek_buf = [b, self.peek_buf[1]],
                Channel::B => self.peek_buf = [self.peek_buf[0], b],
            }
            if b.is_some() {
                match channel {
                    Channel::A => self.peek_flags = [true, self.peek_flags[1]],
                    Channel::B => self.peek_flags = [self.peek_flags[0], true],
                }
            }
        }
        Ok(())
    }

    /// The transfers of the first `k` scratch register checks of a ping from
    /// `before`, all of which read back what was written.
    pub open spec fn ping_transfers(&self, before: Seq<Transfer>, k: nat) -> Seq<Transfer>
        decreases k,
    {
        if k == 0 {
            before
        } else {
            let (c, p) = ping_step_of((k - 1) as nat);
            self.ping_transfers(before, (k - 1) as nat).push(self.wr(c, TLR_SPR, p)).push(
                self.rd(c, TLR_SPR, p),
            )
        }
    }

    /// Checks that the chip answers: writes 0x55 then 0xAA to the scratch pad
    /// register of channel A, then of channel B, reading each back. Returns
    /// `false` at the first read back that differs from what was written,
    /// `true` when all four match.
    pub fn ping(&mut self) -> (r: Result<bool, B::Error>)
        ensures
            final(self).same_state(old(self)),
            r matches Ok(true) ==> final(self).transfers() == old(self).ping_transfers(
                old(self).transfers(),
                4,
            ),
            r matches Ok(false) ==> {
                let k = (final(self).transfers().len() - old(self).transfers().len() - 2) / 2;
                let got = read_value(final(self).transfers(), final(self).transfers().len() - 1);
                &&& 0 <= k < 4
                &&& got != ping_step_of(k as nat).1
                &&& final(self).transfers() == old(self).ping_transfers(
                    old(self).transfers(),
                    k as nat,
                ).push(old(self).wr(ping_step_of(k as nat).0, TLR_SPR, ping_step_of(k as nat).1)).push(
                    old(self).rd(ping_step_of(k as nat).0, TLR_SPR, got),
                )
            },
            r is Err ==> ends_in_failure(old(self).transfers(), final(self).transfers()),
    {
        let ghost t0 = self.log@;
        let ghost start = *self;
        let mut k: u8 = 0;
        while k < 4
            invariant
                start == *old(self),
                t0 == start.transfers(),
                self.same_state(&start),
                k <= 4,
                self.log@ == start.ping_transfers(t0, k as nat),
                succeeded_since(t0, self.log@),
                self.log@.len() == t0.len() + 2 * k,
            decreases 4 - k,
        {
            let (channel, pattern) = ping_step(k);
            let ghost before = self.log@;
            match self.write_register(channel, TLR_SPR, pattern) {
                Ok(()) => {},
                Err(e) => {
                    proof {
                        lemma_failure_after_success(t0, before, self.log@);
                    }
                    return Err(e);
                },
            }
            let ghost mid = self.log@;
            let got = match self.read_register(channel, TLR_SPR) {
                Ok(v) => v,
                Err(e) => {
                    proof {
                        lemma_failure_after_success(t0, mid, self.log@);
                    }
                    return Err(e);
                },
            };
            if got != pattern {
                assert(read_value(self.log@, self.log@.len() - 1) == got);
                return Ok(false);
            }
            k = k + 1;
        }
        Ok(true)
    }

    /// The bus the driver owns.
    pub closed spec fn spec_bus(&self) -> B {
        self.bus
    }

    /// Ends the driver and hands its bus back.
    pub fn release(self) -> (r: B)
        ensures
            r == self.spec_bus(),
    {
        self.bus
    }
}

} // verus!
