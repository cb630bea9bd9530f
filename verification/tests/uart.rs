use ashtos_fw::uart::{nibble_of, Uart};
use ashtos_fw::uart::{DATA_READY, DATA_REGISTER, LINE_STATUS_REGISTER, TRANSMIT_EMPTY};

fn sent(u: &mut Uart) -> String {
    String::from_utf8(u.drain()).unwrap()
}

#[test]
fn hex_rendering_groups_by_four() {
    let mut u = Uart::new();
    u.write_int_hex(0x0000_0000_0000_1234, 16);
    assert_eq!(sent(&mut u), "0000_0000_0000_1234");
}

#[test]
fn hex_rendering_of_a_narrow_register() {
    let mut u = Uart::new();
    u.write_int_hex(0xDEAD_BEEF, 8);
    assert_eq!(sent(&mut u), "DEAD_BEEF");
}

#[test]
fn hex_rendering_puts_the_most_significant_digit_first() {
    let mut u = Uart::new();
    u.write_int_hex(0x0123_4567_89AB_CDEF, 16);
    assert_eq!(sent(&mut u), "0123_4567_89AB_CDEF");
}

#[test]
fn hex_rendering_keeps_only_the_digits_asked_for() {
    let mut u = Uart::new();
    u.write_int_hex(0x1234_5678, 4);
    assert_eq!(sent(&mut u), "5678");
    u.write_int_hex(0x1234_5678, 5);
    assert_eq!(sent(&mut u), "4_5678");
    u.write_int_hex(0x1234_5678, 1);
    assert_eq!(sent(&mut u), "8");
}

#[test]
fn hex_rendering_of_no_digits_sends_nothing() {
    let mut u = Uart::new();
    u.write_int_hex(0xFFFF, 0);
    assert_eq!(u.drain(), Vec::<u8>::new());
}

#[test]
fn hex_rendering_beyond_the_word_pads_with_zeros() {
    let mut u = Uart::new();
    u.write_int_hex(usize::MAX, (usize::BITS / 4) as usize + 4);
    let text = sent(&mut u);
    assert!(text.starts_with("0000_"));
    assert_eq!(text.len(), (usize::BITS / 4) as usize + 4 + (usize::BITS / 16) as usize);
    assert!(text[5..].chars().all(|c| c == 'F' || c == '_'));
}

#[test]
fn hex_rendering_in_groups_of_two() {
    let mut u = Uart::new();
    u.write_int_hex_grouped(0x1234, 4, 2);
    assert_eq!(sent(&mut u), "12_34");
    u.write_int_hex_grouped(0xA1B2_C3D4, 8, 2);
    assert_eq!(sent(&mut u), "A1_B2_C3_D4");
}

#[test]
fn hex_rendering_with_a_group_as_wide_as_the_number_has_no_separator() {
    let mut u = Uart::new();
    u.write_int_hex_grouped(0x00AB_CDEF, 8, 8);
    assert_eq!(sent(&mut u), "00ABCDEF");
    u.write_int_hex_grouped(0x00AB_CDEF, 8, 100);
    assert_eq!(sent(&mut u), "00ABCDEF");
}

#[test]
fn hex_rendering_in_groups_of_one_and_three() {
    let mut u = Uart::new();
    u.write_int_hex_grouped(0xABC, 3, 1);
    assert_eq!(sent(&mut u), "A_B_C");
    u.write_int_hex_grouped(0x1234567, 7, 3);
    assert_eq!(sent(&mut u), "1_234_567");
}

#[test]
fn every_nibble_has_its_digit() {
    let mut u = Uart::new();
    for n in 0u8..16 {
        u.write_nibble_hex(n);
    }
    assert_eq!(sent(&mut u), "0123456789ABCDEF");
}

#[test]
fn nibbles_are_counted_from_the_right() {
    assert_eq!(nibble_of(0x1234, 0), 4);
    assert_eq!(nibble_of(0x1234, 1), 3);
    assert_eq!(nibble_of(0x1234, 2), 2);
    assert_eq!(nibble_of(0x1234, 3), 1);
    assert_eq!(nibble_of(0x1234, 4), 0);
    assert_eq!(nibble_of(usize::MAX, (usize::BITS / 4) as usize - 1), 0xF);
    assert_eq!(nibble_of(usize::MAX, (usize::BITS / 4) as usize), 0);
    assert_eq!(nibble_of(usize::MAX, usize::MAX), 0);
}

#[test]
fn a_new_port_is_idle() {
    let mut u = Uart::new();
    assert_eq!(u.read_register(LINE_STATUS_REGISTER), TRANSMIT_EMPTY);
    assert_eq!(u.try_read_byte(), None);
    assert_eq!(u.drain(), Vec::<u8>::new());
}

#[test]
fn line_status_shows_both_bits() {
    let mut u = Uart::new();
    assert_eq!(u.read_register(LINE_STATUS_REGISTER), 0x20);
    u.deliver(7);
    assert_eq!(u.read_register(LINE_STATUS_REGISTER), 0x21);
    u.hold_transmitter(1);
    assert_eq!(u.read_register(LINE_STATUS_REGISTER), 0x01);
    assert_eq!(u.read_register(LINE_STATUS_REGISTER), 0x21);
    assert_eq!(u.read_register(DATA_REGISTER), 7);
    u.hold_transmitter(1);
    assert_eq!(u.read_register(LINE_STATUS_REGISTER), 0x00);
    assert_eq!(DATA_READY, 0x01);
    assert_eq!(TRANSMIT_EMPTY, 0x20);
    assert_eq!(DATA_REGISTER, 0);
    assert_eq!(LINE_STATUS_REGISTER, 5);
}

#[test]
fn the_data_register_reads_zero_when_nothing_waits() {
    let mut u = Uart::new();
    assert_eq!(u.read_register(DATA_REGISTER), 0);
    u.deliver(0x55);
    assert_eq!(u.read_register(DATA_REGISTER), 0x55);
    assert_eq!(u.read_register(DATA_REGISTER), 0);
}

#[test]
fn other_registers_read_zero_and_ignore_writes() {
    let mut u = Uart::new();
    u.deliver(9);
    for offset in [1usize, 2, 3, 4, 6, 7, 100] {
        assert_eq!(u.read_register(offset), 0);
        u.write_register(offset, 0xAA);
    }
    u.write_register(LINE_STATUS_REGISTER, 0xAA);
    assert_eq!(u.drain(), Vec::<u8>::new());
    assert_eq!(u.try_read_byte(), Some(9));
}

#[test]
fn a_write_to_a_full_holding_register_is_lost() {
    let mut u = Uart::new();
    u.hold_transmitter(3);
    u.write_register(DATA_REGISTER, 1);
    assert_eq!(u.drain(), Vec::<u8>::new());
    u.hold_transmitter(0);
    u.write_register(DATA_REGISTER, 2);
    assert_eq!(u.drain(), vec![2]);
}

#[test]
fn try_write_byte_is_accepted_by_a_ready_transmitter() {
    let mut u = Uart::new();
    assert!(u.try_write_byte(0x41));
    assert!(u.try_write_byte(0x42));
    assert_eq!(u.drain(), vec![0x41, 0x42]);
}

#[test]
fn try_write_byte_is_refused_while_the_transmitter_is_busy() {
    let mut u = Uart::new();
    u.hold_transmitter(2);
    assert!(!u.try_write_byte(1));
    assert!(!u.try_write_byte(2));
    assert!(u.try_write_byte(3));
    assert_eq!(u.drain(), vec![3]);
}

#[test]
fn write_byte_waits_for_the_transmitter() {
    let mut u = Uart::new();
    u.hold_transmitter(1000);
    u.write_byte(0x5A);
    assert_eq!(u.drain(), vec![0x5A]);
    assert!(u.try_write_byte(0x5B));
}

#[test]
fn write_bytes_keeps_the_order() {
    let mut u = Uart::new();
    u.hold_transmitter(5);
    u.write_bytes(&[3, 1, 2]);
    u.write_bytes(&[]);
    u.write_bytes(&[0, 255]);
    assert_eq!(u.drain(), vec![3, 1, 2, 0, 255]);
}

#[test]
fn write_bytes_of_nothing_does_not_poll() {
    let mut u = Uart::new();
    u.hold_transmitter(1);
    u.write_bytes(&[]);
    u.write("");
    assert!(!u.try_write_byte(1));
    assert!(u.try_write_byte(2));
}

#[test]
fn write_sends_the_bytes_of_the_string() {
    let mut u = Uart::new();
    u.write("Hello world!\n");
    assert_eq!(u.drain(), b"Hello world!\n".to_vec());
    u.write("\u{e9}\u{20ac}");
    assert_eq!(u.drain(), vec![0xC3, 0xA9, 0xE2, 0x82, 0xAC]);
}

#[test]
fn try_read_byte_takes_bytes_in_the_order_of_arrival() {
    let mut u = Uart::new();
    assert_eq!(u.try_read_byte(), None);
    u.deliver(10);
    u.deliver(20);
    assert_eq!(u.try_read_byte(), Some(10));
    u.deliver(30);
    assert_eq!(u.try_read_byte(), Some(20));
    assert_eq!(u.try_read_byte(), Some(30));
    assert_eq!(u.try_read_byte(), None);
}

#[test]
fn read_byte_takes_the_next_byte() {
    let mut u = Uart::new();
    u.deliver(0);
    u.deliver(0xFF);
    assert_eq!(u.read_byte(), 0);
    assert_eq!(u.read_byte(), 0xFF);
    assert_eq!(u.try_read_byte(), None);
}

#[test]
fn reading_counts_as_a_poll_of_the_status() {
    let mut u = Uart::new();
    u.deliver(1);
    u.hold_transmitter(2);
    assert_eq!(u.read_byte(), 1);
    assert_eq!(u.try_read_byte(), None);
    assert!(u.try_write_byte(9));
}

#[test]
fn reading_does_not_transmit_and_writing_does_not_receive() {
    let mut u = Uart::new();
    u.deliver(1);
    u.write_byte(2);
    assert_eq!(u.read_byte(), 1);
    assert_eq!(u.drain(), vec![2]);
    assert_eq!(u.try_read_byte(), None);
}

#[test]
fn drain_takes_what_was_sent_once() {
    let mut u = Uart::new();
    u.write_bytes(&[1, 2, 3]);
    assert_eq!(u.drain(), vec![1, 2, 3]);
    assert_eq!(u.drain(), Vec::<u8>::new());
    u.write_byte(4);
    assert_eq!(u.drain(), vec![4]);
}

#[test]
fn hex_text_has_a_fixed_width() {
    let mut u = Uart::new();
    for value in [0usize, 1, 0xFFFF, 0x1234_5678, usize::MAX] {
        for digits in 0usize..20 {
            for group in 1usize..6 {
                u.write_int_hex_grouped(value, digits, group);
                let text = u.drain();
                let separators = if digits == 0 { 0 } else { (digits - 1) / group };
                assert_eq!(text.len(), digits + separators);
                assert_eq!(text.iter().filter(|byte| **byte == b'_').count(), separators);
                assert!(text
                    .iter()
                    .all(|byte| byte.is_ascii_digit() || (b'A'..=b'F').contains(byte) || *byte == b'_'));
                assert!(text.first() != Some(&b'_') && text.last() != Some(&b'_'));
            }
        }
    }
}

#[test]
fn hex_text_reads_back_as_the_number() {
    let mut u = Uart::new();
    for value in [0usize, 9, 10, 0xABCDEF, 0x8000_0100, usize::MAX] {
        u.write_int_hex(value, (usize::BITS / 4) as usize);
        let text: String =
            String::from_utf8(u.drain()).unwrap().chars().filter(|c| *c != '_').collect();
        assert_eq!(usize::from_str_radix(&text, 16), Ok(value));
    }
}

#[test]
fn the_status_bits_are_read_one_by_one() {
    assert!(Uart::transmit_ready(0x20));
    assert!(Uart::transmit_ready(0x21));
    assert!(Uart::transmit_ready(0xFF));
    assert!(!Uart::transmit_ready(0x00));
    assert!(!Uart::transmit_ready(0x01));
    assert!(!Uart::transmit_ready(0xDF));
    assert!(Uart::receive_ready(0x01));
    assert!(Uart::receive_ready(0x21));
    assert!(!Uart::receive_ready(0x20));
    assert!(!Uart::receive_ready(0xFE));
}
