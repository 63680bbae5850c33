//! Register arithmetic of the general-purpose I/O ports.
//!
//! Every function takes the register block of one port as a value and
//! computes what the driver writes to it; reading the block from the
//! hardware and writing it back is the caller's part.

use crate::utils::with_bits;
pub use crate::utils::set_bits_with_offset;
use vstd::prelude::*;

verus! {

/// The registers of one I/O port.
#[allow(non_camel_case_types)]
#[allow(non_snake_case)]
#[derive(Clone, Copy, Debug, PartialEq, Eq, Structural)]
pub struct GPIO_s {
    pub MODER: u32,
    pub OTYPER: u32,
    pub OSPEEDR: u32,
    pub PUPDR: u32,
    pub IDR: u32,
    pub ODR: u32,
    pub BSRR: u32,
    pub LCKR: u32,
    pub AFRL: u32,
    pub AFRH: u32,
    pub BRR: u32,
}

/// How one pin is to be set up.
#[allow(non_camel_case_types)]
#[derive(Clone, Copy, Debug, PartialEq, Eq, Structural)]
pub struct GPIO_config_s {
    pub mode: u32,
    pub pin: u32,
    pub pull: u32,
    pub speed: u32,
    pub alternate: u32,
}

/// One pin: the base address of its port, and its number in the port.
#[allow(non_camel_case_types)]
#[derive(Clone, Copy, Debug, PartialEq, Eq, Structural)]
pub struct GPIO_pin_s {
    pub port: u32,
    pub pin: u32,
}

pub const GPIO_MODE_INPUT: u32 = 0x00000000;

pub const GPIO_MODE_OUTPUT: u32 = 0x00000001;

pub const GPIO_MODE_ALTERNATE_FUNC: u32 = 0x00000002;

pub const GPIO_MODE_ANALOG: u32 = 0x00000003;

pub const GPIO_TYPE_PUSH_PULL: u32 = 0x00000000;

pub const GPIO_TYPE_OPEN_DRAIN: u32 = 0x00000001;

pub const GPIO_SPEED_LOW: u32 = 0x00000000;

pub const GPIO_SPEED_MEDIUM: u32 = 0x00000001;

pub const GPIO_SPEED_HIGH: u32 = 0x00000003;

pub const GPIO_NO_PUPD: u32 = 0x00000000;

pub const GPIO_PULL_UP: u32 = 0x00000001;

pub const GPIO_PULL_DOWN: u32 = 0x00000002;

pub const GPIOA: u32 = 0x48000000;

pub const GPIOB: u32 = 0x48000400;

pub const GPIOC: u32 = 0x48000800;

pub const GPIOD: u32 = 0x48000C00;

pub const GPIOE: u32 = 0x48001000;

pub const GPIOF: u32 = 0x48001400;

pub const GPIO_PIN_0: u32 = 0x0000_0000;

pub const GPIO_PIN_1: u32 = 0x0000_0001;

pub const GPIO_PIN_2: u32 = 0x0000_0002;

pub const GPIO_PIN_3: u32 = 0x0000_0003;

pub const GPIO_PIN_4: u32 = 0x0000_0004;

pub const GPIO_PIN_5: u32 = 0x0000_0005;

pub const GPIO_PIN_6: u32 = 0x0000_0006;

pub const GPIO_PIN_7: u32 = 0x0000_0007;

pub const GPIO_PIN_8: u32 = 0x0000_0008;

pub const GPIO_PIN_9: u32 = 0x0000_0009;

pub const GPIO_PIN_10: u32 = 0x0000_000A;

pub const GPIO_PIN_11: u32 = 0x0000_000B;

pub const GPIO_PIN_12: u32 = 0x0000_000C;

pub const AF0: u32 = 0x0;

pub const AF1: u32 = 0x1;

pub const AF2: u32 = 0x2;

pub const AF3: u32 = 0x3;

pub const AF4: u32 = 0x4;

pub const AF5: u32 = 0x5;

pub const AF6: u32 = 0x6;

pub const AF7: u32 = 0x7;

/// Pins in a port.
pub const GPIO_PINS: u32 = 16;

/// A register of two bits per pin, with the two bits of `pin` set to `value`.
pub open spec fn with_pin_pair(reg: u32, pin: u32, value: u32) -> u32 {
    with_bits(reg, (pin * 2) as u32, 2, value)
}

/// The alternate-function registers hold four bits per pin, eight pins each.
pub open spec fn with_pin_nibble(reg: u32, pin: u32, value: u32) -> u32 {
    with_bits(reg, ((pin % 8) * 4) as u32, 4, value)
}

/// The port after `gpio_init`: mode, speed and pull of the pin are replaced.
pub open spec fn initialised(port: GPIO_s, config: GPIO_config_s) -> GPIO_s {
    GPIO_s {
        MODER: with_pin_pair(port.MODER, config.pin, config.mode),
        OSPEEDR: with_pin_pair(port.OSPEEDR, config.pin, config.speed),
        PUPDR: with_pin_pair(port.PUPDR, config.pin, config.pull),
        ..port
    }
}

/// Sets mode, speed and pull of one pin.
pub fn gpio_init(port: &mut GPIO_s, config: &GPIO_config_s)
    requires
        config.pin < GPIO_PINS,
    ensures
        *final(port) == initialised(*old(port), *config),
{
    port.MODER = set_bits_with_offset(port.MODER, config.pin * 2u32, 2, config.mode);
    port.OSPEEDR = set_bits_with_offset(port.OSPEEDR, config.pin * 2u32, 2, config.speed);
    port.PUPDR = set_bits_with_offset(port.PUPDR, config.pin * 2u32, 2, config.pull);
}

/// The word that drives a pin: its set bit for a value other than zero, its
/// reset bit, sixteen places higher, for zero.
pub open spec fn set_reset_word(pin: u32, value: u8) -> u32 {
    if value != 0 {
        1u32 << pin
    } else {
        1u32 << ((pin + 16) as u32)
    }
}

/// Drives a pin high for a `value` other than zero, low for zero, through
/// the set/reset register.
pub fn gpio_set(port: &mut GPIO_s, gpio: GPIO_pin_s, value: u8)
    requires
        gpio.pin < GPIO_PINS,
    ensures
        *final(port) == (GPIO_s { BSRR: set_reset_word(gpio.pin, value), ..*old(port) }),
{
    if value != 0 {
        port.BSRR = 1u32 << gpio.pin;
    } else {
        port.BSRR = 1u32 << (gpio.pin + 16);
    }
}

/// Level of a pin as the input register shows it: 1 or 0.
pub fn gpio_read(port: &GPIO_s, gpio: GPIO_pin_s) -> (r: i32)
    requires
        gpio.pin < 32,
    ensures
        r == (port.IDR >> gpio.pin) & 1,
{
    let idr = port.IDR;
    let pin = gpio.pin;
    assert(((idr & (1u32 << pin)) > 0) <==> ((idr >> pin) & 1) == 1) by (bit_vector)
        requires
            pin < 32,
    ;
    assert(((idr >> pin) & 1) == 0 || ((idr >> pin) & 1) == 1) by (bit_vector);
    if (idr & (1u32 << pin)) > 0 {
        return 1;
    }
    0
}

/// The port after a pin has been given to an alternate function: the
/// function's number stands in the low or the high function register, by the
/// pin's number, and the pin's mode is the alternate one.
pub open spec fn with_alternate_function(port: GPIO_s, pin: u32, function: u8) -> GPIO_s {
    if pin <= 7 {
        GPIO_s {
            AFRL: with_pin_nibble(port.AFRL, pin, function as u32),
            MODER: with_pin_pair(port.MODER, pin, GPIO_MODE_ALTERNATE_FUNC),
            ..port
        }
    } else {
        GPIO_s {
            AFRH: with_pin_nibble(port.AFRH, pin, function as u32),
            MODER: with_pin_pair(port.MODER, pin, GPIO_MODE_ALTERNATE_FUNC),
            ..port
        }
    }
}

/// Hands a pin to the alternate function `function`.
pub fn gpio_select_alternate_function(port: &mut GPIO_s, gpio: GPIO_pin_s, function: u8)
    requires
        gpio.pin < GPIO_PINS,
    ensures
        *final(port) == with_alternate_function(*old(port), gpio.pin, function),
{
    let offset: u32 = (gpio.pin % 8) * 4;
    if gpio.pin <= 7 {
        port.AFRL = set_bits_with_offset(port.AFRL, offset, 4, function as u32);
    } else {
        port.AFRH = set_bits_with_offset(port.AFRH, offset, 4, function as u32);
    }
    port.MODER = set_bits_with_offset(port.MODER, gpio.pin * 2u32, 2, GPIO_MODE_ALTERNATE_FUNC);
}

} // verus!
