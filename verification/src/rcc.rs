//! Register arithmetic of the reset and clock controller.
//!
//! As with the I/O ports, the functions compute on the controller's register
//! block as a value.

use crate::utils::with_bits;
pub use crate::utils::set_bits_with_offset;
use vstd::prelude::*;

verus! {

/// The registers of the reset and clock controller, in address order.
#[allow(non_camel_case_types)]
#[allow(non_snake_case)]
#[derive(Clone, Copy, Debug, PartialEq, Eq, Structural)]
pub struct RCC_t {
    /// Clock control register.
    pub CR: u32,
    /// Clock configuration register.
    pub CFGR: u32,
    /// Clock interrupt register.
    pub CIR: u32,
    /// APB peripheral reset register 2.
    pub APB2RSTR: u32,
    /// APB peripheral reset register 1.
    pub APB1RSTR: u32,
    /// AHB peripheral clock enable register.
    pub AHBENR: u32,
    /// APB peripheral clock enable register 2.
    pub APB2ENR: u32,
    /// APB peripheral clock enable register 1.
    pub APB1ENR: u32,
    /// RTC domain control register.
    pub BDCR: u32,
    /// Control/status register.
    pub CSR: u32,
    /// AHB peripheral reset register.
    pub AHBRSTR: u32,
    /// Clock configuration register 2.
    pub CFGR2: u32,
    /// Clock configuration register 3.
    pub CFGR3: u32,
    /// Clock control register 2.
    pub CR2: u32,
}

/// The I/O ports whose clock the controller gates.
#[derive(Clone, Copy, Debug, PartialEq, Eq, Structural)]
pub enum IoPort {
    A,
    B,
    C,
    D,
    E,
    F,
}

/// The serial ports whose clock the controller gates.
#[derive(Clone, Copy, Debug, PartialEq, Eq, Structural)]
pub enum UartPort {
    UartPort1,
    UartPort2,
    UartPort3,
    UartPort4,
    UartPort5,
    UartPort6,
    UartPort7,
    UartPort8,
}

/// The timers whose clock the controller gates.
#[derive(Clone, Copy, Debug, PartialEq, Eq, Structural)]
pub enum RccTim {
    RccTim1,
    RccTim2,
    RccTim3,
    RccTim6,
    RccTim7,
    RccTim14,
    RccTim15,
    RccTim16,
    RccTim17,
}

/// An enable register of the second or the first peripheral bus.
#[derive(Clone, Copy, Debug, PartialEq, Eq, Structural)]
pub enum ApbBus {
    Apb1,
    Apb2,
}

pub const RCC_BASE: u32 = 0x4002_1000;

pub const AHBENR_OFFSET: u32 = 0x14;

pub const APB1ENR_OFFSET: u32 = 0x1C;

pub const APB2ENR_OFFSET: u32 = 0x18;

pub const CR_OFFSET: u32 = 0x00;

pub const CFGR_OFFSET: u32 = 0x04;

pub const CFGR3_OFFSET: u32 = 0x30;

pub const HSION_OFFSET: u32 = 0;

pub const HSITRIM_OFFSET: u32 = 3;

pub const HPRE_OFFSET: u32 = 4;

pub const PPRE_OFFSET: u32 = 8;

pub const USART2SW_OFFSET: u32 = 16;

impl IoPort {
    /// Bit of the port in the AHB enable register.
    pub open spec fn enable_bit(self) -> u32 {
        match self {
            IoPort::A => 17,
            IoPort::B => 18,
            IoPort::C => 19,
            IoPort::D => 20,
            IoPort::E => 21,
            IoPort::F => 22,
        }
    }

    /// Bit of the port in the AHB enable register.
    pub fn bit(self) -> (r: u32)
        ensures
            r == self.enable_bit(),
    {
        match self {
            IoPort::A => 17,
            IoPort::B => 18,
            IoPort::C => 19,
            IoPort::D => 20,
            IoPort::E => 21,
            IoPort::F => 22,
        }
    }
}

impl UartPort {
    /// Bit of the port in the enable register of its bus.
    pub open spec fn enable_bit(self) -> u32 {
        match self {
            UartPort::UartPort1 => 14,
            UartPort::UartPort2 => 17,
            UartPort::UartPort3 => 18,
            UartPort::UartPort4 => 19,
            UartPort::UartPort5 => 20,
            UartPort::UartPort6 => 5,
            UartPort::UartPort7 => 6,
            UartPort::UartPort8 => 7,
        }
    }

    /// The bus that the port hangs on.
    pub open spec fn bus(self) -> ApbBus {
        match self {
            UartPort::UartPort1
            | UartPort::UartPort6
            | UartPort::UartPort7
            | UartPort::UartPort8 => ApbBus::Apb2,
            UartPort::UartPort2
            | UartPort::UartPort3
            | UartPort::UartPort4
            | UartPort::UartPort5 => ApbBus::Apb1,
        }
    }

    /// Bit of the port in the enable register of its bus.
    pub fn bit(self) -> (r: u32)
        ensures
            r == self.enable_bit(),
    {
        match self {
            UartPort::UartPort1 => 14,
            UartPort::UartPort2 => 17,
            UartPort::UartPort3 => 18,
            UartPort::UartPort4 => 19,
            UartPort::UartPort5 => 20,
            UartPort::UartPort6 => 5,
            UartPort::UartPort7 => 6,
            UartPort::UartPort8 => 7,
        }
    }
}

impl RccTim {
    /// Bit of the timer in the enable register of its bus.
    pub open spec fn enable_bit(self) -> u32 {
        match self {
            RccTim::RccTim1 => 11,
            RccTim::RccTim2 => 0,
            RccTim::RccTim3 => 1,
            RccTim::RccTim6 => 4,
            RccTim::RccTim7 => 5,
            RccTim::RccTim14 => 8,
            RccTim::RccTim15 => 16,
            RccTim::RccTim16 => 17,
            RccTim::RccTim17 => 18,
        }
    }

    /// The bus that the timer hangs on.
    pub open spec fn bus(self) -> ApbBus {
        match self {
            RccTim::RccTim2
            | RccTim::RccTim3
            | RccTim::RccTim6
            | RccTim::RccTim7
            | RccTim::RccTim14 => ApbBus::Apb1,
            RccTim::RccTim1
            | RccTim::RccTim15
            | RccTim::RccTim16
            | RccTim::RccTim17 => ApbBus::Apb2,
        }
    }

    /// Bit of the timer in the enable register of its bus.
    pub fn bit(self) -> (r: u32)
        ensures
            r == self.enable_bit(),
    {
        match self {
            RccTim::RccTim1 => 11,
            RccTim::RccTim2 => 0,
            RccTim::RccTim3 => 1,
            RccTim::RccTim6 => 4,
            RccTim::RccTim7 => 5,
            RccTim::RccTim14 => 8,
            RccTim::RccTim15 => 16,
            RccTim::RccTim16 => 17,
            RccTim::RccTim17 => 18,
        }
    }
}

/// The number that a flag is written as: 1 for set, 0 for clear.
pub open spec fn flag(enable: bool) -> u32 {
    if enable {
        1
    } else {
        0
    }
}

/// The controller after the clocks are set up: the internal oscillator is
/// on, the peripheral clock prescaler field is 7, the bus clock prescaler
/// field is 0, and the second serial port runs from the peripheral clock.
pub open spec fn with_clocks(rcc: RCC_t) -> RCC_t {
    RCC_t {
        CR: with_bits(rcc.CR, HSION_OFFSET, 1, 1),
        CFGR: with_bits(with_bits(rcc.CFGR, PPRE_OFFSET, 3, 7), HPRE_OFFSET, 4, 0),
        CFGR3: with_bits(rcc.CFGR3, USART2SW_OFFSET, 2, 0),
        ..rcc
    }
}

/// Sets the system clocks up.
pub fn rcc_init_clocks(rcc: &mut RCC_t)
    ensures
        *final(rcc) == with_clocks(*old(rcc)),
{
    rcc.CR = set_bits_with_offset(rcc.CR, HSION_OFFSET, 1, 1);
    rcc.CFGR = set_bits_with_offset(rcc.CFGR, PPRE_OFFSET, 3, 7);
    rcc.CFGR = set_bits_with_offset(rcc.CFGR, HPRE_OFFSET, 4, 0);
    rcc.CFGR3 = set_bits_with_offset(rcc.CFGR3, USART2SW_OFFSET, 2, 0);
}

/// The controller with the enable bit `bit` of a peripheral bus written.
pub open spec fn with_apb_enable(rcc: RCC_t, bus: ApbBus, bit: u32, enable: bool) -> RCC_t {
    match bus {
        ApbBus::Apb1 => RCC_t { APB1ENR: with_bits(rcc.APB1ENR, bit, 1, flag(enable)), ..rcc },
        ApbBus::Apb2 => RCC_t { APB2ENR: with_bits(rcc.APB2ENR, bit, 1, flag(enable)), ..rcc },
    }
}

/// Switches the clock of an I/O port on or off.
pub fn rcc_gpio_set(rcc: &mut RCC_t, io_port: IoPort, enable: bool)
    ensures
        *final(rcc) == (RCC_t {
            AHBENR: with_bits(old(rcc).AHBENR, io_port.enable_bit(), 1, flag(enable)),
            ..*old(rcc)
        }),
{
    let offset = io_port.bit();
    rcc.AHBENR = set_bits_with_offset(rcc.AHBENR, offset, 1, enable as u32);
}

/// Switches the clock of a serial port on or off, in the enable register
/// of the bus that the port hangs on.
pub fn rcc_uart_set(rcc: &mut RCC_t, uart_port: UartPort, enable: bool)
    ensures
        *final(rcc) == with_apb_enable(
            *old(rcc),
            uart_port.bus(),
            uart_port.enable_bit(),
            enable,
        ),
{
    match uart_port {
        UartPort::UartPort1 | UartPort::UartPort6 | UartPort::UartPort7 | UartPort::UartPort8 => {
            rcc.APB2ENR = set_bits_with_offset(rcc.APB2ENR, uart_port.bit(), 1, enable as u32);
        },
        UartPort::UartPort2 | UartPort::UartPort3 | UartPort::UartPort4 | UartPort::UartPort5 => {
            rcc.APB1ENR = set_bits_with_offset(rcc.APB1ENR, uart_port.bit(), 1, enable as u32);
        },
    }
}

/// Switches the clock of a timer on or off, in the enable register of the
/// bus that the timer hangs on.
pub fn rcc_tim_set(rcc: &mut RCC_t, tim: RccTim, enable: bool)
    ensures
        *final(rcc) == with_apb_enable(*old(rcc), tim.bus(), tim.enable_bit(), enable),
{
    match tim {
        RccTim::RccTim2
        | RccTim::RccTim3
        | RccTim::RccTim6
        | RccTim::RccTim7
        | RccTim::RccTim14 => {
            rcc.APB1ENR = set_bits_with_offset(rcc.APB1ENR, tim.bit(), 1, enable as u32);
        },
        RccTim::RccTim1 | RccTim::RccTim15 | RccTim::RccTim16 | RccTim::RccTim17 => {
            rcc.APB2ENR = set_bits_with_offset(rcc.APB2ENR, tim.bit(), 1, enable as u32);
        },
    }
}

} // verus!
