use vstd::prelude::*;

verus! {

/// GPIO pins 0-7
#[allow(missing_docs)]
#[derive(Debug, Clone, Copy, PartialEq, Eq, Structural)]
pub enum GPIO {
    GPIO0,
    GPIO1,
    GPIO2,
    GPIO3,
    GPIO4,
    GPIO5,
    GPIO6,
    GPIO7,
}

impl GPIO {
    /// The pin's bit position in the GPIO registers.
    pub open spec fn spec_index(self) -> u8 {
        match self {
            GPIO::GPIO0 => 0,
            GPIO::GPIO1 => 1,
            GPIO::GPIO2 => 2,
            GPIO::GPIO3 => 3,
            GPIO::GPIO4 => 4,
            GPIO::GPIO5 => 5,
            GPIO::GPIO6 => 6,
            GPIO::GPIO7 => 7,
        }
    }

    /// The pin's bit position in the GPIO registers.
    #[verifier::when_used_as_spec(spec_index)]
    pub fn index(self) -> (r: u8)
        ensures
            r == self.spec_index(),
            r < 8,
    {
        match self {
            GPIO::GPIO0 => 0,
            GPIO::GPIO1 => 1,
            GPIO::GPIO2 => 2,
            GPIO::GPIO3 => 3,
            GPIO::GPIO4 => 4,
            GPIO::GPIO5 => 5,
            GPIO::GPIO6 => 6,
            GPIO::GPIO7 => 7,
        }
    }
}

/// Direction of a GPIO pin.
#[allow(missing_docs)]
#[derive(Debug, Clone, Copy, PartialEq, Eq, Structural)]
pub enum PinMode {
    Input,
    Output,
}

/// Level of a GPIO pin.
#[allow(missing_docs)]
#[derive(Debug, Clone, Copy, PartialEq, Eq, Structural)]
pub enum PinState {
    Low,
    High,
}

impl GPIO {
    /// The pin's name as text.
    pub open spec fn spec_name(self) -> Seq<char> {
        match self {
            GPIO::GPIO0 => "GPIO0"@,
            GPIO::GPIO1 => "GPIO1"@,
            GPIO::GPIO2 => "GPIO2"@,
            GPIO::GPIO3 => "GPIO3"@,
            GPIO::GPIO4 => "GPIO4"@,
            GPIO::GPIO5 => "GPIO5"@,
            GPIO::GPIO6 => "GPIO6"@,
            GPIO::GPIO7 => "GPIO7"@,
        }
    }

    /// The pin's name as text.
    pub fn name(self) -> (r: String)
        ensures
            r@ == self.spec_name(),
    {
        match self {
            GPIO::GPIO0 => {
                proof {
                    reveal_strlit("GPIO0");
                }
                String::from_str("GPIO0")
            },
            GPIO::GPIO1 => {
                proof {
                    reveal_strlit("GPIO1");
                }
                String::from_str("GPIO1")
            },
            GPIO::GPIO2 => {
                proof {
                    reveal_strlit("GPIO2");
                }
                String::from_str("GPIO2")
            },
            GPIO::GPIO3 => {
                proof {
                    reveal_strlit("GPIO3");
                }
                String::from_str("GPIO3")
            },
            GPIO::GPIO4 => {
                proof {
                    reveal_strlit("GPIO4");
                }
                String::from_str("GPIO4")
            },
            GPIO::GPIO5 => {
                proof {
                    reveal_strlit("GPIO5");
                }
                String::from_str("GPIO5")
            },
            GPIO::GPIO6 => {
                proof {
                    reveal_strlit("GPIO6");
                }
                String::from_str("GPIO6")
            },
            GPIO::GPIO7 => {
                proof {
                    reveal_strlit("GPIO7");
                }
                String::from_str("GPIO7")
            },
        }
    }
}

impl PinMode {
    /// The mode's name as text.
    pub open spec fn spec_name(self) -> Seq<char> {
        match self {
            PinMode::Input => "Input"@,
            PinMode::Output => "Output"@,
        }
    }

    /// The mode's name as text.
    pub fn name(self) -> (r: String)
        ensures
            r@ == self.spec_name(),
    {
        match self {
            PinMode::Input => {
                proof {
                    reveal_strlit("Input");
                }
                String::from_str("Input")
            },
            PinMode::Output => {
                proof {
                    reveal_strlit("Output");
                }
                String::from_str("Output")
            },
        }
    }
}

impl PinState {
    /// The state's name as text.
    pub open spec fn spec_name(self) -> Seq<char> {
        match self {
            PinState::Low => "Low"@,
            PinState::High => "High"@,
        }
    }

    /// The state's name as text.
    pub fn name(self) -> (r: String)
        ensures
            r@ == self.spec_name(),
    {
        match self {
            PinState::Low => {
                proof {
                    reveal_strlit("Low");
                }
                String::from_str("Low")
            },
            PinState::High => {
                proof {
                    reveal_strlit("High");
                }
                String::from_str("High")
            },
        }
    }
}

/// `reg` with bit `index` set when `set` holds and cleared otherwise.
pub open spec fn with_bit_of(reg: u8, index: u8, set: bool) -> u8 {
    if set {
        reg | (1u8 << index)
    } else {
        reg & !(1u8 << index)
    }
}

/// Whether bit `index` of `reg` is set.
pub open spec fn bit_of(reg: u8, index: u8) -> bool {
    reg & (1u8 << index) != 0
}

/// Sets (`set`) or clears bit `index` of a register value, leaving the others.
pub fn with_bit(reg: u8, index: u8, set: bool) -> (r: u8)
    requires
        index < 8,
    ensures
        r == with_bit_of(reg, index, set),
        bit_of(r, index) == set,
        forall|j: u8| j < 8 && j != index ==> bit_of(r, j) == bit_of(reg, j),
{
    let mask: u8 = 1u8 << index;
    let r = if set {
        reg | mask
    } else {
        reg & !mask
    };
    assert(bit_of(r, index) == set) by (bit_vector)
        requires
            index < 8,
            r == (if set { reg | (1u8 << index) } else { reg & !(1u8 << index) }),
    ;
    assert forall|j: u8| j < 8 && j != index implies bit_of(r, j) == bit_of(reg, j) by {
        assert(bit_of(r, j) == bit_of(reg, j)) by (bit_vector)
            requires
                index < 8,
                j < 8,
                j != index,
                r == (if set { reg | (1u8 << index) } else { reg & !(1u8 << index) }),
        ;
    }
    r
}

/// The state of pin `index` in an IOState register value.
pub fn pin_state_of(reg: u8, index: u8) -> (r: PinState)
    requires
        index < 8,
    ensures
        r == (if bit_of(reg, index) {
            PinState::High
        } else {
            PinState::Low
        }),
{
    if reg & (1u8 << index) == 0 {
        PinState::Low
    } else {
        PinState::High
    }
}

} // verus!
