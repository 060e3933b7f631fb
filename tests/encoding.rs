use sc16is752::config::{baud_divisor, line_control_value};
use sc16is752::gpio::{pin_state_of, with_bit};
use sc16is752::interrupt::{decode_interrupt, features_value};
use sc16is752::registers::{resolve_address, subaddress};
use sc16is752::{Channel, FeaturesRegister, InterruptEventTest, Parity, PinMode, PinState, UartConfig, GPIO};

#[test]
fn shifted_addresses_resolve_to_seven_bits() {
    for raw in (0x90u8..=0xAE).step_by(2) {
        let r = resolve_address(raw);
        assert_eq!(r, raw >> 1);
        assert!((0x48..=0x57).contains(&r));
    }
    assert_eq!(resolve_address(0x90), 0x48);
    assert_eq!(resolve_address(0xAE), 0x57);
}

#[test]
fn seven_bit_addresses_resolve_to_themselves() {
    for raw in 0x48u8..=0x57 {
        assert_eq!(resolve_address(raw), raw);
    }
}

#[test]
fn subaddress_packs_register_and_channel() {
    for reg in 0u8..16 {
        assert_eq!(subaddress(reg, Channel::A), reg << 3);
        assert_eq!(subaddress(reg, Channel::B), (reg << 3) | 2);
    }
    assert_eq!(subaddress(0x0A, Channel::B), 0x52);
    assert_eq!(subaddress(0x03, Channel::A), 0x18);
}

#[test]
fn divisor_for_9600_baud() {
    assert_eq!(baud_divisor(0, 9600), 12);
    assert_eq!(1_843_200 / (9600 * 16), 12);
}

#[test]
fn divisor_with_prescaler_four() {
    assert_eq!(baud_divisor(0x80, 9600), 3);
    assert_eq!(baud_divisor(0, 115200), 1);
    assert_eq!(baud_divisor(0, 1), 115200);
    assert_eq!(baud_divisor(1, 230400), 0);
}

#[test]
fn line_control_eight_none_one() {
    assert_eq!(line_control_value(0x00, 8, Parity::NoParity, 1), 0b0000_0011);
    assert_eq!(line_control_value(0xC0, 8, Parity::NoParity, 1), 0xC0 | 0b0000_0011);
    assert_eq!(line_control_value(0x3F, 8, Parity::NoParity, 1), 0b0000_0011);
}

#[test]
fn line_control_seven_even_two() {
    assert_eq!(line_control_value(0x00, 7, Parity::Even, 2), 0b0001_1110);
    assert_eq!(line_control_value(0xFF, 7, Parity::Even, 2), 0xC0 | 0b0001_1110);
    assert_eq!(line_control_value(0x40, 7, Parity::Even, 2), 0x40 | 0b0001_1110);
}

#[test]
fn line_control_other_codes() {
    assert_eq!(line_control_value(0, 5, Parity::Odd, 1), 0x08);
    assert_eq!(line_control_value(0, 6, Parity::ForcedParity1, 1), 0x29);
    assert_eq!(line_control_value(0, 8, Parity::ForcedParity0, 1), 0x3B);
    assert_eq!(line_control_value(0, 9, Parity::NoParity, 1), 0x03);
}

#[test]
fn interrupt_decoding() {
    assert_eq!(decode_interrupt(0x04), InterruptEventTest::RHR_INTERRUPT);
    assert_eq!(decode_interrupt(0x3E), InterruptEventTest::UNKNOWN);
    assert_eq!(decode_interrupt(0xFF), InterruptEventTest::UNKNOWN);
    assert_eq!(decode_interrupt(0xC1), InterruptEventTest::MODEM_INTERRUPT);
    assert_eq!(decode_interrupt(0x07), InterruptEventTest::RECEIVE_LINE_STATUS_ERROR);
    assert_eq!(decode_interrupt(0x0C), InterruptEventTest::RECEIVE_TIMEOUT_INTERRUPT);
    assert_eq!(decode_interrupt(0x02), InterruptEventTest::THR_INTERRUPT);
    assert_eq!(decode_interrupt(0x30), InterruptEventTest::INPUT_PIN_CHANGE_STATE);
    assert_eq!(decode_interrupt(0x10), InterruptEventTest::RECEIVE_XOFF);
    assert_eq!(decode_interrupt(0x20), InterruptEventTest::CTS_RTS_CHANGE);
    assert_eq!(decode_interrupt(0x08), InterruptEventTest::UNKNOWN);
}

#[test]
fn feature_flag_is_inverted() {
    assert_eq!(features_value(0x00, FeaturesRegister::TxDisable, false), 0x04);
    assert_eq!(features_value(0xFF, FeaturesRegister::TxDisable, true), 0xFB);
    assert_eq!(features_value(0x00, FeaturesRegister::IrDaFast, false), 0x80);
    assert_eq!(features_value(0x01, FeaturesRegister::Multidrop, true), 0x00);
    assert_eq!(FeaturesRegister::AutoRs485RTSOutputInversion.bit(), 0x20);
    assert_eq!(FeaturesRegister::AutoRs485DirectionControl.bit(), 0x10);
    assert_eq!(FeaturesRegister::RxDisable.bit(), 0x02);
}

#[test]
fn bit_updates() {
    assert_eq!(with_bit(0x00, 3, true), 0x08);
    assert_eq!(with_bit(0xFF, 3, false), 0xF7);
    assert_eq!(with_bit(0x08, 3, true), 0x08);
    assert_eq!(pin_state_of(0x80, 7), PinState::High);
    assert_eq!(pin_state_of(0x7F, 7), PinState::Low);
}

#[test]
fn config_defaults_and_builder() {
    let c = UartConfig::default();
    assert_eq!(c.baud(), 115200);
    assert_eq!(c.word_length(), 8);
    assert_eq!(c.parity(), Parity::NoParity);
    assert_eq!(c.stop_bit(), 1);
    assert!(c.is_valid());
    let c = c.baudrate(9600);
    assert_eq!(c.baud(), 9600);
    assert_eq!(c.word_length(), 8);
    assert!(!UartConfig::new(0, 8, Parity::NoParity, 1).is_valid());
    assert!(!UartConfig::new(9600, 9, Parity::NoParity, 1).is_valid());
    assert!(!UartConfig::new(9600, 4, Parity::NoParity, 1).is_valid());
    assert!(!UartConfig::new(9600, 8, Parity::NoParity, 0).is_valid());
    assert!(UartConfig::new(9600, 5, Parity::Odd, 2).is_valid());
}

#[test]
fn names() {
    assert_eq!(Channel::A.name(), "A");
    assert_eq!(Channel::B.name(), "B");
    assert_eq!(GPIO::GPIO5.name(), "GPIO5");
    assert_eq!(PinMode::Output.name(), "Output");
    assert_eq!(PinState::Low.name(), "Low");
    assert_eq!(GPIO::GPIO7.index(), 7);
    assert_eq!(Channel::B.index(), 1);
}
