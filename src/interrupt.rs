use vstd::prelude::*;

verus! {

/// The cause of a pending interrupt, as the interrupt identification
/// register reports it.
#[allow(non_camel_case_types)]
#[allow(missing_docs)]
#[derive(Debug, Clone, Copy, PartialEq, Eq, Structural)]
pub enum InterruptEventTest {
    RECEIVE_LINE_STATUS_ERROR,
    RECEIVE_TIMEOUT_INTERRUPT,
    RHR_INTERRUPT,
    THR_INTERRUPT,
    MODEM_INTERRUPT,
    INPUT_PIN_CHANGE_STATE,
    RECEIVE_XOFF,
    CTS_RTS_CHANGE,
    UNKNOWN,
}

/// The bits of the interrupt identification register that name the cause.
pub const IIR_CAUSE_MASK: u8 = 0x3E;

/// The event that a masked interrupt identification value names.
pub open spec fn event_of(masked: u8) -> InterruptEventTest {
    if masked == 0x06 {
        InterruptEventTest::RECEIVE_LINE_STATUS_ERROR
    } else if masked == 0x0C {
        InterruptEventTest::RECEIVE_TIMEOUT_INTERRUPT
    } else if masked == 0x04 {
        InterruptEventTest::RHR_INTERRUPT
    } else if masked == 0x02 {
        InterruptEventTest::THR_INTERRUPT
    } else if masked == 0x00 {
        InterruptEventTest::MODEM_INTERRUPT
    } else if masked == 0x30 {
        InterruptEventTest::INPUT_PIN_CHANGE_STATE
    } else if masked == 0x10 {
        InterruptEventTest::RECEIVE_XOFF
    } else if masked == 0x20 {
        InterruptEventTest::CTS_RTS_CHANGE
    } else {
        InterruptEventTest::UNKNOWN
    }
}

/// Decodes an interrupt identification register value: bits 1 to 5 are
/// looked up in the table of causes; a value not in it is `UNKNOWN`.
pub fn decode_interrupt(iir: u8) -> (r: InterruptEventTest)
    ensures
        r == event_of(iir & IIR_CAUSE_MASK),
{
    match iir & IIR_CAUSE_MASK {
        0x06 => InterruptEventTest::RECEIVE_LINE_STATUS_ERROR,
        0x0C => InterruptEventTest::RECEIVE_TIMEOUT_INTERRUPT,
        0x04 => InterruptEventTest::RHR_INTERRUPT,
        0x02 => InterruptEventTest::THR_INTERRUPT,
        0x00 => InterruptEventTest::MODEM_INTERRUPT,
        0x30 => InterruptEventTest::INPUT_PIN_CHANGE_STATE,
        0x10 => InterruptEventTest::RECEIVE_XOFF,
        0x20 => InterruptEventTest::CTS_RTS_CHANGE,
        _ => InterruptEventTest::UNKNOWN,
    }
}

/// Extra Features Control Register options
#[derive(Debug, Clone, Copy, PartialEq, Eq, Structural)]
pub enum FeaturesRegister {
    /// IrDaFast controls IrDA mode. (SC16IS762 only)
    ///
    /// false -> IrDA SIR, 3⁄16 pulse ratio, data rate up to 115.2 kbit/s
    /// true -> IrDA SIR, 1⁄4 pulse ratio, data rate up to 1.152 Mbit/s
    IrDaFast,
    /// Inverts RTS signal in RS-485 mode
    ///
    /// false -> RTS pin = low during transmission and RTS pin = high during reception
    /// true -> RTS = high during transmission and RTS = low during reception
    AutoRs485RTSOutputInversion,
    /// Enable the transmitter to control the RTS pin
    ///
    /// false -> transmitter does not control RTS pin
    /// true -> transmitter controls RTS pin
    AutoRs485DirectionControl,
    /// Disables transmitter.
    ///
    /// UART does not send serial data out on the transmit pin, but the transmit FIFO will continue to receive data from host until full. Any data in the TSR will be sent out before the transmitter goes into disable state.
    TxDisable,
    /// Disables receiver.
    ///
    /// UART will stop receiving data immediately once this is set to true, and any data in the TSR will be sent to the receive FIFO. User is advised not to set this bit during receiving.
    RxDisable,
    /// Enable 9-bit/Multidrop mode (RS-485).
    Multidrop,
}

impl FeaturesRegister {
    /// The feature's bit in the extra features control register.
    pub open spec fn spec_bit(self) -> u8 {
        match self {
            FeaturesRegister::IrDaFast => 0x80,
            FeaturesRegister::AutoRs485RTSOutputInversion => 0x20,
            FeaturesRegister::AutoRs485DirectionControl => 0x10,
            FeaturesRegister::TxDisable => 0x04,
            FeaturesRegister::RxDisable => 0x02,
            FeaturesRegister::Multidrop => 0x01,
        }
    }

    /// The feature's bit in the extra features control register.
    #[verifier::when_used_as_spec(spec_bit)]
    pub fn bit(self) -> (r: u8)
        ensures
            r == self.spec_bit(),
    {
        match self {
            FeaturesRegister::IrDaFast => 0x80,
            FeaturesRegister::AutoRs485RTSOutputInversion => 0x20,
            FeaturesRegister::AutoRs485DirectionControl => 0x10,
            FeaturesRegister::TxDisable => 0x04,
            FeaturesRegister::RxDisable => 0x02,
            FeaturesRegister::Multidrop => 0x01,
        }
    }
}

/// The extra features control register after a toggle. The flag is inverted:
/// `enable == false` sets the feature's bit, `enable == true` clears it.
pub open spec fn features_of(current: u8, feature: FeaturesRegister, enable: bool) -> u8 {
    if !enable {
        current | feature.spec_bit()
    } else {
        current & !feature.spec_bit()
    }
}

/// Toggles one feature's bit of an extra features control register value,
/// with the inverted flag of `features_of`.
pub fn features_value(current: u8, feature: FeaturesRegister, enable: bool) -> (r: u8)
    ensures
        r == features_of(current, feature, enable),
        (r & feature.spec_bit() != 0) == !enable,
        r & !feature.spec_bit() == current & !feature.spec_bit(),
{
    let b = feature.bit();
    let r = if !enable {
        current | b
    } else {
        current & !b
    };
    assert((r & b != 0) == !enable && r & !b == current & !b) by (bit_vector)
        requires
            b != 0,
            r == (if !enable { current | b } else { current & !b }),
    ;
    r
}

} // verus!
