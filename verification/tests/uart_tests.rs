use viisi::uart::{Uart, UART_LCR, UART_LSR, UART_LSR_RX, UART_LSR_TX, UART_RHR, UART_THR};

#[test]
fn initial_line_status() {
    let mut uart = Uart::new();
    let status = uart.load(UART_LSR);
    assert_ne!(status & UART_LSR_TX, 0, "transmit-empty must be set after construction");
    assert_eq!(status & UART_LSR_RX, 0, "receive-ready must be clear before any input");
}

#[test]
fn transmit_emits_bytes_in_order() {
    let mut uart = Uart::new();
    let first = uart.store(UART_THR, b'H');
    let second = uart.store(UART_THR, b'i');
    assert_eq!(first, Some(b'H'));
    assert_eq!(second, Some(b'i'));
    // Transmitting changes no register: the line status is as fresh as ever.
    let status = uart.load(UART_LSR);
    assert_ne!(status & UART_LSR_TX, 0);
    assert_eq!(status & UART_LSR_RX, 0);
}

#[test]
fn store_and_load_raw_register() {
    let mut uart = Uart::new();
    let out = uart.store(UART_LCR, 0x03);
    assert_eq!(out, None, "only transmit-holding stores emit a byte");
    assert_eq!(uart.load(UART_LCR), 0x03);
}

#[test]
fn input_delivery_sets_ready_and_interrupt() {
    let mut uart = Uart::new();
    let accepted = uart.deliver_input(0x41);
    assert!(accepted, "delivery while receive-ready is clear must be accepted");
    let status = uart.load(UART_LSR);
    assert_ne!(status & UART_LSR_RX, 0, "receive-ready must be set after delivery");
    assert!(uart.is_interrupting());
    assert_eq!(uart.load(UART_RHR), 0x41);
    assert!(!uart.is_interrupting(), "the interrupt flag is consumed by the first poll");
    let status = uart.load(UART_LSR);
    assert_eq!(status & UART_LSR_RX, 0, "the receive-holding load clears receive-ready");
    // Absent new input, a second load returns the previous content unchanged.
    assert_eq!(uart.load(UART_RHR), 0x41);
}

#[test]
fn second_delivery_blocked_until_read() {
    let mut uart = Uart::new();
    assert!(uart.deliver_input(0xAA));
    assert!(!uart.deliver_input(0xBB), "an unread byte must not be overwritten");
    assert_eq!(uart.load(UART_RHR), 0xAA);
    assert!(uart.deliver_input(0xBB), "the receive-holding load makes room again");
    assert_eq!(uart.load(UART_RHR), 0xBB);
}

#[test]
fn coalesced_interrupts_poll_true_once() {
    let mut uart = Uart::new();
    assert!(uart.deliver_input(0x01));
    assert_eq!(uart.load(UART_RHR), 0x01);
    assert!(uart.deliver_input(0x02));
    // Two deliveries before any poll coalesce into one pending indication.
    assert!(uart.is_interrupting());
    assert!(!uart.is_interrupting());
}
