use bare_runtime::gpio::{
    gpio_init, gpio_read, gpio_select_alternate_function, gpio_set, GPIO_config_s, GPIO_pin_s,
    GPIO_s, GPIOA, GPIO_MODE_ANALOG, GPIO_MODE_OUTPUT, GPIO_NO_PUPD, GPIO_PIN_5, GPIO_PIN_9,
    GPIO_PULL_DOWN, GPIO_SPEED_HIGH, GPIO_SPEED_LOW,
};
use bare_runtime::rcc::{
    rcc_gpio_set, rcc_init_clocks, rcc_tim_set, rcc_uart_set, IoPort, RccTim, UartPort, RCC_t,
};
use bare_runtime::uart::{
    uart_configure, uart_read, uart_write, uart_writer, writer_uart_write, UART_config, UART_t,
    UartTx, Writer, WriterKind, WriterStep, DEFAULT_BRR_VALUE, STOP_BITS, UART1, UART2, UART3,
    WORD_LENGTH,
};

fn port(fill: u32) -> GPIO_s {
    GPIO_s {
        MODER: fill,
        OTYPER: fill,
        OSPEEDR: fill,
        PUPDR: fill,
        IDR: fill,
        ODR: fill,
        BSRR: fill,
        LCKR: fill,
        AFRL: fill,
        AFRH: fill,
        BRR: fill,
    }
}

fn rcc(fill: u32) -> RCC_t {
    RCC_t {
        CR: fill,
        CFGR: fill,
        CIR: fill,
        APB2RSTR: fill,
        APB1RSTR: fill,
        AHBENR: fill,
        APB2ENR: fill,
        APB1ENR: fill,
        BDCR: fill,
        CSR: fill,
        AHBRSTR: fill,
        CFGR2: fill,
        CFGR3: fill,
        CR2: fill,
    }
}

fn uart(fill: u32) -> UART_t {
    UART_t {
        CR1: fill,
        CR2: fill,
        CR3: fill,
        BRR: fill,
        GTPR: fill,
        RTOR: fill,
        RQR: fill,
        ISR: fill,
        ICR: fill,
        RDR: fill,
        TDR: fill,
    }
}

#[test]
fn gpio_init_writes_mode_speed_and_pull_of_the_pin() {
    let mut regs = port(0);
    let config = GPIO_config_s {
        pin: GPIO_PIN_5,
        mode: GPIO_MODE_OUTPUT,
        pull: GPIO_PULL_DOWN,
        speed: GPIO_SPEED_HIGH,
        alternate: 0,
    };
    gpio_init(&mut regs, &config);
    assert_eq!(
        regs,
        GPIO_s { MODER: 0x0000_0400, OSPEEDR: 0x0000_0C00, PUPDR: 0x0000_0800, ..port(0) }
    );
}

#[test]
fn gpio_init_clears_what_the_field_held() {
    let mut regs = port(0xFFFF_FFFF);
    let config = GPIO_config_s {
        pin: GPIO_PIN_5,
        mode: GPIO_MODE_OUTPUT,
        pull: GPIO_NO_PUPD,
        speed: GPIO_SPEED_LOW,
        alternate: 0,
    };
    gpio_init(&mut regs, &config);
    assert_eq!(regs.MODER, 0xFFFF_F7FF);
    assert_eq!(regs.OSPEEDR, 0xFFFF_F3FF);
    assert_eq!(regs.PUPDR, 0xFFFF_F3FF);
    assert_eq!(regs.AFRL, 0xFFFF_FFFF);
    let mut regs = port(0);
    let last = GPIO_config_s { pin: 15, mode: GPIO_MODE_ANALOG, pull: 0, speed: 0, alternate: 0 };
    gpio_init(&mut regs, &last);
    assert_eq!(regs.MODER, 0xC000_0000);
}

#[test]
fn gpio_set_uses_the_set_and_the_reset_half() {
    let mut regs = port(0);
    let pin = GPIO_pin_s { port: GPIOA, pin: GPIO_PIN_5 };
    gpio_set(&mut regs, pin, 1);
    assert_eq!(regs, GPIO_s { BSRR: 0x0000_0020, ..port(0) });
    gpio_set(&mut regs, pin, 0);
    assert_eq!(regs, GPIO_s { BSRR: 0x0020_0000, ..port(0) });
    gpio_set(&mut regs, pin, 200);
    assert_eq!(regs.BSRR, 0x0000_0020);
    gpio_set(&mut regs, GPIO_pin_s { port: GPIOA, pin: 15 }, 0);
    assert_eq!(regs.BSRR, 0x8000_0000);
}

#[test]
fn gpio_read_returns_the_input_bit() {
    let regs = GPIO_s { IDR: 0x0000_0220, ..port(0) };
    assert_eq!(gpio_read(&regs, GPIO_pin_s { port: GPIOA, pin: GPIO_PIN_5 }), 1);
    assert_eq!(gpio_read(&regs, GPIO_pin_s { port: GPIOA, pin: GPIO_PIN_9 }), 1);
    assert_eq!(gpio_read(&regs, GPIO_pin_s { port: GPIOA, pin: 6 }), 0);
    assert_eq!(gpio_read(&regs, GPIO_pin_s { port: GPIOA, pin: 31 }), 0);
    let top = GPIO_s { IDR: 0x8000_0000, ..port(0) };
    assert_eq!(gpio_read(&top, GPIO_pin_s { port: GPIOA, pin: 31 }), 1);
}

#[test]
fn alternate_function_goes_to_the_low_or_the_high_register() {
    let mut regs = port(0);
    gpio_select_alternate_function(&mut regs, GPIO_pin_s { port: GPIOA, pin: GPIO_PIN_5 }, 7);
    assert_eq!(regs, GPIO_s { AFRL: 0x0070_0000, MODER: 0x0000_0800, ..port(0) });
    let mut regs = port(0);
    gpio_select_alternate_function(&mut regs, GPIO_pin_s { port: GPIOA, pin: GPIO_PIN_9 }, 1);
    assert_eq!(regs, GPIO_s { AFRH: 0x0000_0010, MODER: 0x0008_0000, ..port(0) });
}

#[test]
fn clocks_are_set_up() {
    let mut regs = rcc(0);
    rcc_init_clocks(&mut regs);
    assert_eq!(regs, RCC_t { CR: 1, CFGR: 0x0000_0700, ..rcc(0) });
    let mut regs = rcc(0xFFFF_FFFF);
    rcc_init_clocks(&mut regs);
    assert_eq!(
        regs,
        RCC_t { CFGR: 0xFFFF_FF0F, CFGR3: 0xFFFC_FFFF, ..rcc(0xFFFF_FFFF) }
    );
}

#[test]
fn port_clock_bits() {
    let mut regs = rcc(0);
    rcc_gpio_set(&mut regs, IoPort::A, true);
    assert_eq!(regs, RCC_t { AHBENR: 0x0002_0000, ..rcc(0) });
    rcc_gpio_set(&mut regs, IoPort::F, true);
    assert_eq!(regs.AHBENR, 0x0042_0000);
    rcc_gpio_set(&mut regs, IoPort::A, false);
    assert_eq!(regs.AHBENR, 0x0040_0000);
    assert_eq!(IoPort::B.bit(), 18);
    assert_eq!(IoPort::C.bit(), 19);
    assert_eq!(IoPort::D.bit(), 20);
    assert_eq!(IoPort::E.bit(), 21);
}

#[test]
fn serial_port_clock_bits() {
    let mut regs = rcc(0);
    rcc_uart_set(&mut regs, UartPort::UartPort2, true);
    assert_eq!(regs, RCC_t { APB1ENR: 0x0002_0000, ..rcc(0) });
    rcc_uart_set(&mut regs, UartPort::UartPort1, true);
    assert_eq!(regs, RCC_t { APB1ENR: 0x0002_0000, APB2ENR: 0x0000_4000, ..rcc(0) });
    rcc_uart_set(&mut regs, UartPort::UartPort2, false);
    assert_eq!(regs.APB1ENR, 0);
    let bits: Vec<u32> = [
        UartPort::UartPort1,
        UartPort::UartPort2,
        UartPort::UartPort3,
        UartPort::UartPort4,
        UartPort::UartPort5,
        UartPort::UartPort6,
        UartPort::UartPort7,
        UartPort::UartPort8,
    ]
    .iter()
    .map(|p| p.bit())
    .collect();
    assert_eq!(bits, vec![14, 17, 18, 19, 20, 5, 6, 7]);
    let mut regs = rcc(0);
    rcc_uart_set(&mut regs, UartPort::UartPort8, true);
    assert_eq!(regs, RCC_t { APB2ENR: 0x0000_0080, ..rcc(0) });
}

#[test]
fn timer_clock_bits() {
    let mut regs = rcc(0);
    rcc_tim_set(&mut regs, RccTim::RccTim1, true);
    assert_eq!(regs, RCC_t { APB2ENR: 0x0000_0800, ..rcc(0) });
    rcc_tim_set(&mut regs, RccTim::RccTim14, true);
    assert_eq!(regs, RCC_t { APB2ENR: 0x0000_0800, APB1ENR: 0x0000_0100, ..rcc(0) });
    let bits: Vec<u32> = [
        RccTim::RccTim1,
        RccTim::RccTim2,
        RccTim::RccTim3,
        RccTim::RccTim6,
        RccTim::RccTim7,
        RccTim::RccTim14,
        RccTim::RccTim15,
        RccTim::RccTim16,
        RccTim::RccTim17,
    ]
    .iter()
    .map(|t| t.bit())
    .collect();
    assert_eq!(bits, vec![11, 0, 1, 4, 5, 8, 16, 17, 18]);
}

#[test]
fn serial_set_up_writes_control_and_baud_registers() {
    for (word_length, cr1) in [
        (WORD_LENGTH::EIGHT_BITS, 0x0000_000Du32),
        (WORD_LENGTH::NINE_BITS, 0x0000_100D),
        (WORD_LENGTH::SEVEN_BITS, 0x1000_000D),
    ] {
        let mut regs = uart(0);
        let mut gpioa = port(0);
        let config = UART_config { word_length, baud_rate: 9600, stop_bits: STOP_BITS::TWO_BITS };
        uart_configure(&mut regs, &mut gpioa, UART3, &config);
        assert_eq!(
            regs,
            UART_t { CR1: cr1, CR2: 0x0000_2000, BRR: DEFAULT_BRR_VALUE, ..uart(0) }
        );
        assert_eq!(gpioa, port(0));
    }
    let mut regs = uart(0xFFFF_FFFF);
    let mut gpioa = port(0);
    let config = UART_config {
        word_length: WORD_LENGTH::EIGHT_BITS,
        baud_rate: 0,
        stop_bits: STOP_BITS::HALF_BIT,
    };
    uart_configure(&mut regs, &mut gpioa, UART3, &config);
    assert_eq!(regs.CR1, 0xEFFF_EFFF);
    assert_eq!(regs.CR2, 0xFFFF_DFFF);
    assert_eq!(regs.BRR, 0x34);
    assert_eq!(STOP_BITS::ONE_BIT.code(), 0);
    assert_eq!(STOP_BITS::ONE_AND_HALF_BIT.code(), 3);
}

#[test]
fn serial_set_up_routes_the_pins_of_the_first_two_ports() {
    let config = UART_config {
        word_length: WORD_LENGTH::EIGHT_BITS,
        baud_rate: 0,
        stop_bits: STOP_BITS::ONE_BIT,
    };
    let mut regs = uart(0);
    let mut gpioa = port(0);
    uart_configure(&mut regs, &mut gpioa, UART1, &config);
    assert_eq!(gpioa, GPIO_s { AFRH: 0x0000_0111, MODER: 0x002A_0000, ..port(0) });
    let mut gpioa = port(0);
    uart_configure(&mut regs, &mut gpioa, UART2, &config);
    assert_eq!(gpioa, GPIO_s { AFRL: 0x0001_1100, MODER: 0x0000_02A0, ..port(0) });
}

#[test]
fn sending_waits_for_the_port_byte_by_byte() {
    let buf = [0x41u8, 0x42];
    let txe = 0x80;
    let tc = 0x40;
    assert_eq!(uart_write(0, &buf, 0), UartTx::Wait);
    assert_eq!(uart_write(tc, &buf, 0), UartTx::Wait);
    assert_eq!(uart_write(txe, &buf, 0), UartTx::Send(0x41));
    assert_eq!(uart_write(txe | tc, &buf, 1), UartTx::Send(0x42));
    assert_eq!(uart_write(txe, &buf, 2), UartTx::Wait);
    assert_eq!(uart_write(tc, &buf, 2), UartTx::Done);
    assert_eq!(uart_write(tc, &buf, 7), UartTx::Done);
    assert_eq!(uart_write(0, &[], 0), UartTx::Wait);
    assert_eq!(uart_write(tc, &[], 0), UartTx::Done);
}

#[test]
fn receiving_stores_a_byte_when_one_has_arrived() {
    let rxne = 0x20;
    let mut buf = vec![0u8; 3];
    assert_eq!(uart_read(0, 0x55, &mut buf, 0), 0);
    assert_eq!(buf, vec![0, 0, 0]);
    assert_eq!(uart_read(rxne, 0x55, &mut buf, 0), 1);
    assert_eq!(uart_read(rxne | 0x80, 0x1AA, &mut buf, 1), 2);
    assert_eq!(buf, vec![0x55, 0xAA, 0]);
    assert_eq!(uart_read(rxne, 0x01, &mut buf, 3), 3);
    assert_eq!(buf, vec![0x55, 0xAA, 0]);
}

#[test]
fn a_writer_leads_to_its_serial_port() {
    let writer = uart_writer(UART2);
    assert_eq!(writer, Writer { write: WriterKind::Uart, data: UART2 });
    assert_eq!(
        writer_uart_write(&writer, 0x80, b"ok", 1),
        WriterStep { port: UART2, action: UartTx::Send(b'k') }
    );
    assert_eq!(
        writer_uart_write(&writer, 0x40, b"ok", 2),
        WriterStep { port: UART2, action: UartTx::Done }
    );
}
