use std::collections::VecDeque;

use sc16is752::{
    Bus, Channel, Error, FeaturesRegister, InterruptEventTest, Parity, PinMode, PinState,
    UartConfig, SC16IS752, GPIO,
};

#[derive(Debug, PartialEq)]
struct BusFault;

/// A simulated chip: a register file per channel, receive FIFOs, a transmit
/// record, and knobs to make it slow, broken or forgetful.
struct FakeChip {
    regs: [[u8; 16]; 2],
    divisor: [[u8; 2]; 2],
    rx: [VecDeque<u8>; 2],
    tx: [Vec<u8>; 2],
    busy_polls: usize,
    never_ready: bool,
    scratch_broken: [bool; 2],
    fail_after: Option<usize>,
    transactions: usize,
    addresses: Vec<u8>,
    lsr_reads: usize,
}

impl FakeChip {
    fn new() -> Self {
        FakeChip {
            regs: [[0; 16]; 2],
            divisor: [[0; 2]; 2],
            rx: [VecDeque::new(), VecDeque::new()],
            tx: [Vec::new(), Vec::new()],
            busy_polls: 0,
            never_ready: false,
            scratch_broken: [false; 2],
            fail_after: None,
            transactions: 0,
            addresses: Vec::new(),
            lsr_reads: 0,
        }
    }

    fn tick(&mut self, address: u8) -> Result<(), BusFault> {
        self.addresses.push(address);
        self.transactions += 1;
        match self.fail_after {
            Some(n) if self.transactions > n => Err(BusFault),
            _ => Ok(()),
        }
    }
}

fn decode(sub: u8) -> (usize, usize) {
    ((sub >> 1 & 1) as usize, (sub >> 3) as usize)
}

impl Bus for FakeChip {
    type Error = BusFault;

    fn write(&mut self, address: u8, bytes: &[u8]) -> Result<(), BusFault> {
        self.tick(address)?;
        let (ch, reg) = decode(bytes[0]);
        let v = bytes[1];
        let latched = self.regs[ch][0x03] & 0x80 != 0;
        match reg {
            0x00 if latched => self.divisor[ch][0] = v,
            0x01 if latched => self.divisor[ch][1] = v,
            0x00 => self.tx[ch].push(v),
            _ => self.regs[ch][reg] = v,
        }
        Ok(())
    }

    fn write_read(&mut self, address: u8, bytes: &[u8], buffer: &mut [u8]) -> Result<(), BusFault> {
        self.tick(address)?;
        let (ch, reg) = decode(bytes[0]);
        buffer[0] = match reg {
            0x00 => self.rx[ch].pop_front().unwrap_or(0),
            0x05 => {
                self.lsr_reads += 1;
                if self.never_ready || self.busy_polls > 0 {
                    self.busy_polls = self.busy_polls.saturating_sub(1);
                    0x00
                } else {
                    0x20
                }
            }
            0x07 if self.scratch_broken[ch] => !self.regs[ch][reg],
            0x08 => 64,
            0x09 => self.rx[ch].len() as u8,
            _ => self.regs[ch][reg],
        };
        Ok(())
    }
}

fn device() -> SC16IS752<FakeChip> {
    SC16IS752::new(0x9A, FakeChip::new()).unwrap()
}

fn with_rx(bytes: &[u8]) -> SC16IS752<FakeChip> {
    let mut chip = FakeChip::new();
    chip.rx[0].extend(bytes.iter().copied());
    SC16IS752::new(0x48, chip).unwrap()
}

#[test]
fn shifted_address_goes_on_the_wire_as_seven_bits() {
    let mut d = device();
    d.gpio_get_port_state().unwrap();
    d.gpio_set_port_state(1).unwrap();
    let chip = d.release();
    assert_eq!(chip.addresses, vec![0x4D, 0x4D]);
}

#[test]
fn initialise_programs_fifo_divisor_and_framing() {
    let mut d = device();
    d.initalise_uart(Channel::B, UartConfig::default().baudrate(9600)).unwrap();
    let chip = d.release();
    assert_eq!(chip.regs[1][0x02] & 0x01, 0x01);
    assert_eq!(chip.divisor[1], [12, 0]);
    assert_eq!(chip.regs[1][0x03], 0x03);
    assert_eq!(chip.regs[0], [0; 16]);
}

#[test]
fn initialise_with_prescaler_and_even_parity() {
    let mut chip = FakeChip::new();
    chip.regs[0][0x04] = 0x80;
    chip.regs[0][0x03] = 0x40;
    let mut d = SC16IS752::new(0x48, chip).unwrap();
    d.initalise_uart(Channel::A, UartConfig::new(1200, 7, Parity::Even, 2)).unwrap();
    let chip = d.release();
    assert_eq!(chip.divisor[0], [24, 0]);
    assert_eq!(chip.regs[0][0x03], 0x40 | 0x1E);
}

#[test]
fn initialise_splits_a_large_divisor() {
    let mut d = device();
    d.initalise_uart(Channel::A, UartConfig::default().baudrate(300)).unwrap();
    let chip = d.release();
    assert_eq!(chip.divisor[0], [0x80, 0x01]);
}

#[test]
fn invalid_configuration_is_refused_without_traffic() {
    let mut d = device();
    let r = d.initalise_uart(Channel::A, UartConfig::default().baudrate(0));
    assert_eq!(r, Err(Error::InvalidConfig));
    let r = d.initalise_uart(Channel::A, UartConfig::new(9600, 9, Parity::NoParity, 1));
    assert_eq!(r, Err(Error::InvalidConfig));
    assert_eq!(d.release().transactions, 0);
}

#[test]
fn initialise_hands_on_a_bus_failure() {
    let mut chip = FakeChip::new();
    chip.fail_after = Some(3);
    let mut d = SC16IS752::new(0x48, chip).unwrap();
    let r = d.initalise_uart(Channel::A, UartConfig::default());
    assert_eq!(r, Err(Error::Bus(BusFault)));
    assert_eq!(d.release().transactions, 4);
}

#[test]
fn gpio_pin_mode_and_state() {
    let mut d = device();
    d.gpio_set_pin_mode(GPIO::GPIO3, PinMode::Output).unwrap();
    d.gpio_set_pin_mode(GPIO::GPIO0, PinMode::Output).unwrap();
    d.gpio_set_pin_mode(GPIO::GPIO3, PinMode::Input).unwrap();
    d.gpio_set_pin_state(GPIO::GPIO0, PinState::High).unwrap();
    assert_eq!(d.gpio_get_pin_state(GPIO::GPIO0).unwrap(), PinState::High);
    assert_eq!(d.gpio_get_pin_state(GPIO::GPIO1).unwrap(), PinState::Low);
    d.gpio_set_pin_state(GPIO::GPIO0, PinState::Low).unwrap();
    assert_eq!(d.gpio_get_pin_state(GPIO::GPIO0).unwrap(), PinState::Low);
    d.gpio_set_port_state(0xA5).unwrap();
    assert_eq!(d.gpio_get_port_state().unwrap(), 0xA5);
    d.gpio_set_port_mode(0x0F).unwrap();
    d.set_pin_interrupt(0xF0).unwrap();
    let chip = d.release();
    assert_eq!(chip.regs[0][0x0A], 0x0F);
    assert_eq!(chip.regs[0][0x0C], 0xF0);
    assert_eq!(chip.regs[1], [0; 16]);
}

#[test]
fn io_control_bits() {
    let mut d = device();
    d.gpio_latch(true).unwrap();
    d.modem_pin(true).unwrap();
    d.reset_device().unwrap();
    assert_eq!(d.release().regs[0][0x0E], 0x0B);
    let mut d = device();
    d.gpio_set_port_state(0).unwrap();
    d.gpio_latch(true).unwrap();
    d.modem_pin(true).unwrap();
    d.gpio_latch(false).unwrap();
    d.modem_pin(false).unwrap();
    assert_eq!(d.release().regs[0][0x0E], 0x00);
}

#[test]
fn fifo_control_bits() {
    let mut d = device();
    d.fifo_enable(Channel::A, true).unwrap();
    d.fifo_reset(Channel::A, true).unwrap();
    let mut chip = d.release();
    assert_eq!(chip.regs[0][0x02], 0x03);
    chip.regs[0][0x02] = 0;
    let mut d = SC16IS752::new(0x48, chip).unwrap();
    d.fifo_reset(Channel::A, false).unwrap();
    d.fifo_enable(Channel::A, false).unwrap();
    assert_eq!(d.release().regs[0][0x02], 0x04);
}

#[test]
fn trigger_level_for_each_fifo() {
    let mut chip = FakeChip::new();
    chip.regs[1][0x02] = 0x01;
    let mut d = SC16IS752::new(0x48, chip).unwrap();
    d.fifo_set_trigger_level(Channel::B, false, 0x03).unwrap();
    let chip = d.release();
    assert_eq!(chip.regs[1][0x07], 0x30);
    assert_eq!(chip.regs[1][0x04], 0x04);
    assert_eq!(chip.regs[1][0x02], 0x01);
    let mut d = SC16IS752::new(0x48, chip).unwrap();
    d.fifo_set_trigger_level(Channel::B, true, 0x05).unwrap();
    assert_eq!(d.release().regs[1][0x07], 0x05);
}

#[test]
fn interrupt_registers() {
    let mut chip = FakeChip::new();
    chip.regs[0][0x02] = 0xC4;
    chip.regs[1][0x02] = 0x3F;
    let mut d = SC16IS752::new(0x48, chip).unwrap();
    assert_eq!(d.isr(Channel::A).unwrap(), InterruptEventTest::RHR_INTERRUPT);
    assert_eq!(d.isr(Channel::B).unwrap(), InterruptEventTest::UNKNOWN);
    assert_eq!(d.interrupt_pending_test(Channel::A).unwrap(), 0);
    assert_eq!(d.interrupt_pending_test(Channel::B).unwrap(), 1);
    d.interrupt_control(Channel::B, 0x05).unwrap();
    assert_eq!(d.release().regs[1][0x01], 0x05);
}

#[test]
fn feature_toggle_on_the_chip() {
    let mut d = device();
    d.enable_features(Channel::A, FeaturesRegister::TxDisable, false).unwrap();
    let mut chip = d.release();
    assert_eq!(chip.regs[0][0x0F], 0x04);
    chip.regs[0][0x0F] = 0xFF;
    let mut d = SC16IS752::new(0x48, chip).unwrap();
    d.enable_features(Channel::A, FeaturesRegister::TxDisable, true).unwrap();
    assert_eq!(d.release().regs[0][0x0F], 0xFB);
}

#[test]
fn read_is_bounded_by_available_data() {
    let mut d = with_rx(&[1, 2, 3, 4, 5]);
    let got = d.read(Channel::A, 10).unwrap();
    assert_eq!(got, vec![1, 2, 3, 4, 5]);
    assert!(d.read(Channel::A, 10).unwrap().is_empty());
}

#[test]
fn read_stops_at_quantity() {
    let mut d = with_rx(&[1, 2, 3, 4, 5]);
    assert_eq!(d.read(Channel::A, 3).unwrap(), vec![1, 2, 3]);
    assert_eq!(d.read(Channel::A, 0).unwrap(), Vec::<u8>::new());
    assert_eq!(d.fifo_available_data(Channel::A).unwrap(), 2);
    assert_eq!(d.read_all(Channel::A).unwrap(), vec![4, 5]);
    assert!(d.read_all(Channel::A).unwrap().is_empty());
}

#[test]
fn read_byte_reports_empty_fifo() {
    let mut d = with_rx(&[0x41]);
    assert_eq!(d.read_byte(Channel::A).unwrap(), Some(0x41));
    assert_eq!(d.read_byte(Channel::A).unwrap(), None);
    assert_eq!(d.read_byte(Channel::B).unwrap(), None);
    assert_eq!(d.fifo_available_space(Channel::A).unwrap(), 64);
}

#[test]
fn write_sends_each_byte_after_ready() {
    let mut chip = FakeChip::new();
    chip.busy_polls = 3;
    let mut d = SC16IS752::new(0x48, chip).unwrap();
    d.write(Channel::A, b"hi!").unwrap();
    d.write_byte(Channel::B, 0x7E).unwrap();
    d.flush(Channel::A).unwrap();
    let chip = d.release();
    assert_eq!(chip.tx[0], b"hi!".to_vec());
    assert_eq!(chip.tx[1], vec![0x7E]);
    assert_eq!(chip.lsr_reads, 3 + 3 + 1 + 1);
}

#[test]
fn unresponsive_chip_times_out() {
    let mut chip = FakeChip::new();
    chip.never_ready = true;
    let mut d = SC16IS752::new(0x48, chip).unwrap();
    assert_eq!(d.poll_limit(), u64::MAX);
    d.set_poll_limit(10);
    assert_eq!(d.poll_limit(), 10);
    assert_eq!(d.flush(Channel::A), Err(Error::Unresponsive));
    assert_eq!(d.write(Channel::A, b"x"), Err(Error::Unresponsive));
    let chip = d.release();
    assert_eq!(chip.lsr_reads, 20);
    assert!(chip.tx[0].is_empty());
}

#[test]
fn ping_answers_true_when_scratch_works() {
    let mut d = device();
    assert_eq!(d.ping().unwrap(), true);
    let chip = d.release();
    assert_eq!(chip.transactions, 8);
    assert_eq!(chip.regs[1][0x07], 0xAA);
}

#[test]
fn ping_stops_at_first_mismatch() {
    let mut chip = FakeChip::new();
    chip.scratch_broken[1] = true;
    let mut d = SC16IS752::new(0x48, chip).unwrap();
    assert_eq!(d.ping().unwrap(), false);
    assert_eq!(d.release().transactions, 6);
    let mut chip = FakeChip::new();
    chip.scratch_broken[0] = true;
    let mut d = SC16IS752::new(0x48, chip).unwrap();
    assert_eq!(d.ping().unwrap(), false);
    assert_eq!(d.release().transactions, 2);
}

#[test]
fn bus_failure_is_handed_on() {
    let mut chip = FakeChip::new();
    chip.fail_after = Some(0);
    let mut d = SC16IS752::new(0x48, chip).unwrap();
    assert_eq!(d.gpio_get_port_state(), Err(BusFault));
    assert_eq!(d.ping(), Err(BusFault));
    assert_eq!(d.read(Channel::A, 4), Err(BusFault));
    assert_eq!(d.write(Channel::A, b"a"), Err(Error::Bus(BusFault)));
}

#[test]
fn peek_without_request_does_nothing() {
    let mut d = with_rx(&[9]);
    d.peek(Channel::A).unwrap();
    assert_eq!(d.release().transactions, 0);
}

#[test]
fn write_failure_keeps_a_prefix() {
    let mut chip = FakeChip::new();
    chip.fail_after = Some(3);
    let mut d = SC16IS752::new(0x48, chip).unwrap();
    assert_eq!(d.write(Channel::A, b"abc"), Err(Error::Bus(BusFault)));
    let chip = d.release();
    assert_eq!(chip.tx[0], b"a".to_vec());
    assert_eq!(chip.transactions, 4);
}

#[test]
fn empty_write_issues_nothing() {
    let mut d = device();
    d.write(Channel::B, b"").unwrap();
    assert_eq!(d.release().transactions, 0);
}

#[test]
fn zero_baud_rate_is_refused_before_traffic() {
    let mut d = device();
    let r = d.initalise_uart(Channel::B, UartConfig::new(0, 8, Parity::NoParity, 1));
    assert_eq!(r, Err(Error::InvalidConfig));
    assert_eq!(d.release().transactions, 0);
}
