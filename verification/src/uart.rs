//! Register arithmetic of the serial ports, and the decisions of their
//! polling loops.
//!
//! Set-up computes on the port's register block as a value. Sending and
//! receiving wait for the hardware, so they are written as steps: the caller
//! reads the status register, asks for the next step, and does what it says.

use crate::gpio::{
    gpio_select_alternate_function, with_alternate_function, GPIO_pin_s, GPIO_s, AF1, GPIOA,
    GPIO_PIN_10, GPIO_PIN_2, GPIO_PIN_3, GPIO_PIN_4, GPIO_PIN_8, GPIO_PIN_9,
};
use crate::utils::{set_bits_with_offset, with_bits};
use vstd::prelude::*;

verus! {

/// The registers of one serial port, in address order.
#[allow(non_camel_case_types)]
#[allow(non_snake_case)]
#[derive(Clone, Copy, Debug, PartialEq, Eq, Structural)]
pub struct UART_t {
    /// Control register 1.
    pub CR1: u32,
    /// Control register 2.
    pub CR2: u32,
    /// Control register 3.
    pub CR3: u32,
    /// Baud rate register.
    pub BRR: u32,
    /// Guard time and prescaler register.
    pub GTPR: u32,
    /// Receiver timeout register.
    pub RTOR: u32,
    /// Request register.
    pub RQR: u32,
    /// Interrupt and status register.
    pub ISR: u32,
    /// Interrupt flag clear register.
    pub ICR: u32,
    /// Receive data register.
    pub RDR: u32,
    /// Transmit data register.
    pub TDR: u32,
}

/// The sinks that a writer can lead to.
#[derive(Clone, Copy, Debug, PartialEq, Eq, Structural)]
pub enum WriterKind {
    /// A serial port; the writer's handle is the port's base address.
    Uart,
}

/// An output sink: what kind of device takes the bytes, and a handle that
/// says which one.
#[derive(Clone, Copy, Debug, PartialEq, Eq, Structural)]
pub struct Writer {
    pub write: WriterKind,
    pub data: u32,
}

/// Data bits in a character.
#[allow(non_camel_case_types)]
#[derive(Clone, Copy, Debug, PartialEq, Eq, Structural)]
pub enum WORD_LENGTH {
    EIGHT_BITS,
    NINE_BITS,
    SEVEN_BITS,
}

/// Stop bits behind a character.
#[allow(non_camel_case_types)]
#[derive(Clone, Copy, Debug, PartialEq, Eq, Structural)]
pub enum STOP_BITS {
    ONE_BIT,
    HALF_BIT,
    TWO_BITS,
    ONE_AND_HALF_BIT,
}

pub const DEFAULT_BRR_VALUE: u32 = 0x34;

/// How a serial port is to be set up.
#[allow(non_camel_case_types)]
#[derive(Clone, Copy, Debug, PartialEq, Eq, Structural)]
pub struct UART_config {
    pub word_length: WORD_LENGTH,
    pub baud_rate: u32,
    pub stop_bits: STOP_BITS,
}

pub const UART1: u32 = 0x4001_3800;

pub const UART2: u32 = 0x4000_4400;

pub const UART3: u32 = 0x4000_4800;

pub const UART4: u32 = 0x4000_4C00;

pub const UART5: u32 = 0x4000_5000;

pub const UART6: u32 = 0x4001_1400;

pub const UART7: u32 = 0x4001_1800;

pub const UART8: u32 = 0x4001_1C00;

pub const UE_OFFSET: u8 = 0;

pub const RE_OFFSET: u8 = 2;

pub const TE_OFFSET: u8 = 3;

pub const M0_OFFSET: u8 = 12;

pub const M1_OFFSET: u8 = 28;

pub const STOP_OFFSET: u8 = 12;

pub const RXNE_OFFSET: u8 = 5;

pub const TC_OFFSET: u8 = 6;

pub const TXE_OFFSET: u8 = 7;

/// The bits of control register 1 that set-up writes: enable, receiver,
/// transmitter and the two word-length bits.
pub const CR1_SETUP_MASK: u32 = 0x1000_100D;

impl WORD_LENGTH {
    /// The two word-length bits, in place in control register 1.
    pub open spec fn cr1_bits(self) -> u32 {
        match self {
            WORD_LENGTH::EIGHT_BITS => 0,
            WORD_LENGTH::NINE_BITS => 0x0000_1000,
            WORD_LENGTH::SEVEN_BITS => 0x1000_0000,
        }
    }
}

impl STOP_BITS {
    /// The number that stands for the choice in control register 2.
    pub open spec fn code_spec(self) -> u32 {
        match self {
            STOP_BITS::ONE_BIT => 0,
            STOP_BITS::HALF_BIT => 1,
            STOP_BITS::TWO_BITS => 2,
            STOP_BITS::ONE_AND_HALF_BIT => 3,
        }
    }

    /// The number that stands for the choice in control register 2.
    pub fn code(self) -> (r: u32)
        ensures
            r == self.code_spec(),
    {
        match self {
            STOP_BITS::ONE_BIT => 0,
            STOP_BITS::HALF_BIT => 1,
            STOP_BITS::TWO_BITS => 2,
            STOP_BITS::ONE_AND_HALF_BIT => 3,
        }
    }
}

/// Port A with the clock, receive and transmit pins of the first or the
/// second serial port handed to that port; any other port has no pins here.
pub open spec fn with_uart_pins(gpioa: GPIO_s, port: u32) -> GPIO_s {
    if port == UART1 {
        with_alternate_function(
            with_alternate_function(
                with_alternate_function(gpioa, GPIO_PIN_8, AF1 as u8),
                GPIO_PIN_9,
                AF1 as u8,
            ),
            GPIO_PIN_10,
            AF1 as u8,
        )
    } else if port == UART2 {
        with_alternate_function(
            with_alternate_function(
                with_alternate_function(gpioa, GPIO_PIN_2, AF1 as u8),
                GPIO_PIN_3,
                AF1 as u8,
            ),
            GPIO_PIN_4,
            AF1 as u8,
        )
    } else {
        gpioa
    }
}

/// The serial port after set-up: in control register 1 the port, its
/// receiver and its transmitter are enabled and the word length is written,
/// every other bit kept; the baud rate register holds the default divider;
/// the stop-bit field of control register 2 holds the chosen code.
pub open spec fn configured(uart: UART_t, config: UART_config) -> UART_t {
    UART_t {
        CR1: (uart.CR1 & !CR1_SETUP_MASK) | 0x0000_000D | config.word_length.cr1_bits(),
        BRR: DEFAULT_BRR_VALUE,
        CR2: with_bits(uart.CR2, STOP_OFFSET as u32, 2, config.stop_bits.code_spec()),
        ..uart
    }
}

/// Sets a serial port up: routes its pins on port A, then writes word
/// length, baud rate and stop bits with the port disabled, and enables it
/// with receiver and transmitter on. `port` is the base address of the
/// serial port that `uart` holds the registers of.
pub fn uart_configure(uart: &mut UART_t, gpioa: &mut GPIO_s, port: u32, config: &UART_config)
    ensures
        *final(uart) == configured(*old(uart), *config),
        *final(gpioa) == with_uart_pins(*old(gpioa), port),
{
    if port == UART1 {
        gpio_select_alternate_function(
            gpioa,
            GPIO_pin_s { port: GPIOA, pin: GPIO_PIN_8 },
            AF1 as u8,
        );
        gpio_select_alternate_function(
            gpioa,
            GPIO_pin_s { port: GPIOA, pin: GPIO_PIN_9 },
            AF1 as u8,
        );
        gpio_select_alternate_function(
            gpioa,
            GPIO_pin_s { port: GPIOA, pin: GPIO_PIN_10 },
            AF1 as u8,
        );
    } else if port == UART2 {
        gpio_select_alternate_function(
            gpioa,
            GPIO_pin_s { port: GPIOA, pin: GPIO_PIN_2 },
            AF1 as u8,
        );
        gpio_select_alternate_function(
            gpioa,
            GPIO_pin_s { port: GPIOA, pin: GPIO_PIN_3 },
            AF1 as u8,
        );
        gpio_select_alternate_function(
            gpioa,
            GPIO_pin_s { port: GPIOA, pin: GPIO_PIN_4 },
            AF1 as u8,
        );
    }
    let ghost cr1 = uart.CR1;

    uart.CR1 = set_bits_with_offset(uart.CR1, UE_OFFSET as u32, 1, 0);
    match config.word_length {
        WORD_LENGTH::EIGHT_BITS => {
            uart.CR1 = set_bits_with_offset(uart.CR1, M1_OFFSET as u32, 1, 0);
            uart.CR1 = set_bits_with_offset(uart.CR1, M0_OFFSET as u32, 1, 0);
        },
        WORD_LENGTH::NINE_BITS => {
            uart.CR1 = set_bits_with_offset(uart.CR1, M1_OFFSET as u32, 1, 0);
            uart.CR1 = set_bits_with_offset(uart.CR1, M0_OFFSET as u32, 1, 1);
        },
        WORD_LENGTH::SEVEN_BITS => {
            uart.CR1 = set_bits_with_offset(uart.CR1, M1_OFFSET as u32, 1, 1);
            uart.CR1 = set_bits_with_offset(uart.CR1, M0_OFFSET as u32, 1, 0);
        },
    }
    uart.BRR = DEFAULT_BRR_VALUE;
    uart.CR2 = set_bits_with_offset(uart.CR2, STOP_OFFSET as u32, 2, config.stop_bits.code());
    uart.CR1 = set_bits_with_offset(uart.CR1, RE_OFFSET as u32, 1, 1);
    uart.CR1 = set_bits_with_offset(uart.CR1, TE_OFFSET as u32, 1, 1);
    uart.CR1 = set_bits_with_offset(uart.CR1, UE_OFFSET as u32, 1, 1);
    proof {
        lemma_cr1_setup(cr1, config.word_length);
    }
}

/// The single-bit writes of set-up, one after the other, come to one masked
/// update of control register 1.
pub proof fn lemma_cr1_setup(cr1: u32, word_length: WORD_LENGTH)
    ensures
        with_bits(
            with_bits(
                with_bits(
                    with_bits(
                        with_bits(
                            with_bits(cr1, 0, 1, 0),
                            28,
                            1,
                            if word_length == WORD_LENGTH::SEVEN_BITS {
                                1u32
                            } else {
                                0u32
                            },
                        ),
                        12,
                        1,
                        if word_length == WORD_LENGTH::NINE_BITS {
                            1u32
                        } else {
                            0u32
                        },
                    ),
                    2,
                    1,
                    1,
                ),
                3,
                1,
                1,
            ),
            0,
            1,
            1,
        ) == (cr1 & !CR1_SETUP_MASK) | 0x0000_000D | word_length.cr1_bits(),
{
    let m1: u32 = if word_length == WORD_LENGTH::SEVEN_BITS {
        1
    } else {
        0
    };
    let m0: u32 = if word_length == WORD_LENGTH::NINE_BITS {
        1
    } else {
        0
    };
    let bits = word_length.cr1_bits();
    assert(with_bits(
        with_bits(
            with_bits(with_bits(with_bits(with_bits(cr1, 0, 1, 0), 28, 1, m1), 12, 1, m0), 2, 1, 1),
            3,
            1,
            1,
        ),
        0,
        1,
        1,
    ) == (cr1 & !0x1000_100Du32) | 0x0000_000Du32 | bits) by (bit_vector)
        requires
            (m1 == 0 && m0 == 0 && bits == 0) || (m1 == 0 && m0 == 1 && bits == 0x0000_1000) || (m1
                == 1 && m0 == 0 && bits == 0x1000_0000),
    ;
}

/// What the sender does next.
#[derive(Clone, Copy, Debug, PartialEq, Eq, Structural)]
pub enum UartTx {
    /// The port is busy: read the status register again.
    Wait,
    /// Write this byte to the transmit data register.
    Send(u8),
    /// Every byte has left the port.
    Done,
}

/// Whether bit `offset` of a status word is set.
pub open spec fn status_flag(isr: u32, offset: u8) -> bool {
    isr & (1u32 << (offset as u32)) != 0
}

/// The sender's next step, `sent` bytes of `buf` having been written: the
/// next byte once the transmit register is empty, and behind the last byte
/// the end once transmission is complete.
pub open spec fn tx_step(isr: u32, buf: Seq<u8>, sent: int) -> UartTx {
    if 0 <= sent < buf.len() {
        if status_flag(isr, TXE_OFFSET) {
            UartTx::Send(buf[sent])
        } else {
            UartTx::Wait
        }
    } else if status_flag(isr, TC_OFFSET) {
        UartTx::Done
    } else {
        UartTx::Wait
    }
}

/// One step of sending `buf`: given the status register as just read and the
/// number of bytes written so far, says what to do next.
pub fn uart_write(isr: u32, buf: &[u8], sent: usize) -> (r: UartTx)
    ensures
        r == tx_step(isr, buf@, sent as int),
{
    if sent < buf.len() {
        if isr & (1u32 << (TXE_OFFSET as u32)) == 0 {
            UartTx::Wait
        } else {
            UartTx::Send(buf[sent])
        }
    } else if isr & (1u32 << (TC_OFFSET as u32)) == 0 {
        UartTx::Wait
    } else {
        UartTx::Done
    }
}

/// Whether the status register shows a received byte waiting in the receive
/// data register.
pub fn uart_has_data(isr: u32) -> (r: bool)
    ensures
        r == status_flag(isr, RXNE_OFFSET),
{
    isr & (1u32 << (RXNE_OFFSET as u32)) != 0
}

/// The low eight bits of the receive data register.
pub open spec fn received_byte(rdr: u32) -> u8 {
    rdr as u8
}

/// One step of receiving into `buf`: given the status and the receive data
/// register as just read and the number of bytes stored so far, stores the
/// next byte if one has arrived and the buffer has room. Returns the number
/// of bytes stored after the step.
pub fn uart_read(isr: u32, rdr: u32, buf: &mut [u8], received: usize) -> (r: usize)
    ensures
        final(buf)@.len() == old(buf)@.len(),
        received < old(buf)@.len() && status_flag(isr, RXNE_OFFSET) ==> r == received + 1
            && final(buf)@ == old(buf)@.update(received as int, received_byte(rdr)),
        !(received < old(buf)@.len() && status_flag(isr, RXNE_OFFSET)) ==> r == received
            && final(buf)@ == old(buf)@,
{
    if received < buf.len() && uart_has_data(isr) {
        buf[received] = #[verifier::truncate] (rdr as u8);
        received + 1
    } else {
        received
    }
}

/// A sender's step together with the port it is meant for.
#[derive(Clone, Copy, Debug, PartialEq, Eq, Structural)]
pub struct WriterStep {
    /// Base address of the serial port.
    pub port: u32,
    /// What to do there.
    pub action: UartTx,
}

/// One step of sending `buf` through a writer over a serial port: the port
/// is the one that the writer's handle names, the step is that of
/// `uart_write`.
pub fn writer_uart_write(self_: &Writer, isr: u32, buf: &[u8], sent: usize) -> (r: WriterStep)
    ensures
        r.port == self_.data,
        r.action == tx_step(isr, buf@, sent as int),
{
    let uart = self_.data;
    WriterStep { port: uart, action: uart_write(isr, buf, sent) }
}

/// A writer over the serial port at base address `uart`.
pub fn uart_writer(uart: u32) -> (r: Writer)
    ensures
        r == (Writer { write: WriterKind::Uart, data: uart }),
{
    Writer { write: WriterKind::Uart, data: uart }
}

} // verus!
