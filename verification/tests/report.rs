use ashtos_fw::misa::{DecodePolicy, Extensions, Misa};
use ashtos_fw::mtvec::{Mtvec, TrapMode};
use ashtos_fw::report::{abort, alloc_error, panic as report_panic};
use ashtos_fw::report::{echo_once, echo_pending, is_boot_hart, register_digit_count};
use ashtos_fw::report::{verify_trap_vector, write_address_line, write_extensions};
use ashtos_fw::report::{write_greeting, write_letters, write_machine_info, write_misa};
use ashtos_fw::report::{write_mxl_line, write_notes, write_register_line, MachineInfo};
use ashtos_fw::misa::Mxl;
use ashtos_fw::uart::Uart;

fn sent(u: &mut Uart) -> String {
    String::from_utf8(u.drain()).unwrap()
}

/// The value in hex, one digit for every four bits of machine word, in
/// groups of four.
fn grouped(value: usize) -> String {
    let digits = format!("{:0width$X}", value, width = (usize::BITS / 4) as usize);
    let groups: Vec<&str> =
        (0..digits.len()).step_by(4).map(|start| &digits[start..start + 4]).collect();
    groups.join("_")
}

fn bit(letter: char) -> usize {
    1usize << (letter as u8 - b'A')
}

#[test]
fn echo_returns_the_byte_unchanged() {
    let mut u = Uart::new();
    u.deliver(0x41);
    assert_eq!(echo_once(&mut u), 0x41);
    assert_eq!(u.drain(), vec![0x41]);
    assert_eq!(u.try_read_byte(), None);
}

#[test]
fn echo_takes_one_byte_at_a_time() {
    let mut u = Uart::new();
    u.deliver(1);
    u.deliver(2);
    assert_eq!(echo_once(&mut u), 1);
    assert_eq!(u.drain(), vec![1]);
    assert_eq!(echo_once(&mut u), 2);
    assert_eq!(u.drain(), vec![2]);
}

#[test]
fn echo_waits_for_the_transmitter() {
    let mut u = Uart::new();
    u.hold_transmitter(50);
    u.deliver(0x7F);
    assert_eq!(echo_once(&mut u), 0x7F);
    assert_eq!(u.drain(), vec![0x7F]);
}

#[test]
fn echo_of_everything_that_waits() {
    let mut u = Uart::new();
    for byte in b"echo\r\n" {
        u.deliver(*byte);
    }
    u.write_byte(b'>');
    echo_pending(&mut u);
    assert_eq!(u.drain(), b">echo\r\n".to_vec());
    assert_eq!(u.try_read_byte(), None);
    echo_pending(&mut u);
    assert_eq!(u.drain(), Vec::<u8>::new());
}

#[test]
fn only_hart_zero_runs() {
    assert!(is_boot_hart(0));
    assert!(!is_boot_hart(1));
    assert!(!is_boot_hart(usize::MAX));
}

#[test]
fn one_digit_for_every_four_bits() {
    assert_eq!(register_digit_count(), (usize::BITS / 4) as usize);
}

#[test]
fn a_register_line() {
    let mut u = Uart::new();
    write_register_line(&mut u, "  mcause:    ", 0x1234);
    assert_eq!(sent(&mut u), format!("  mcause:    0x{}\n", grouped(0x1234)));
    if usize::BITS == 64 {
        write_register_line(&mut u, "  marchid:   ", 0x8000_0000_0000_0007);
        assert_eq!(sent(&mut u), "  marchid:   0x8000_0000_0000_0007\n");
    }
}

#[test]
fn an_address_line() {
    let mut u = Uart::new();
    write_address_line(&mut u, "    Wanted ", 0x8000_0100);
    assert_eq!(sent(&mut u), format!("    Wanted 0x{}.\n", grouped(0x8000_0100)));
}

#[test]
fn the_line_for_the_machine_width() {
    let mut u = Uart::new();
    write_mxl_line(&mut u, Some(Mxl::Xlen32));
    assert_eq!(sent(&mut u), "    MXLEN:   32\n");
    write_mxl_line(&mut u, Some(Mxl::Xlen64));
    assert_eq!(sent(&mut u), "    MXLEN:   64\n");
    write_mxl_line(&mut u, Some(Mxl::Xlen128));
    assert_eq!(sent(&mut u), "    MXLEN:   128\n");
    write_mxl_line(&mut u, None);
    assert_eq!(sent(&mut u), "");
}

#[test]
fn letters_are_written_one_byte_each() {
    let mut u = Uart::new();
    write_letters(&mut u, &['I', 'M', 'A']);
    assert_eq!(sent(&mut u), "IMA");
    write_letters(&mut u, &[]);
    assert_eq!(sent(&mut u), "");
}

#[test]
fn the_extension_line_without_a_second_list() {
    let mut u = Uart::new();
    let shown = Extensions {
        standard: vec!['I', 'M', 'A'],
        unspecified: vec![],
        aggregate: false,
        nonstandard: false,
    };
    write_extensions(&mut u, &shown);
    assert_eq!(sent(&mut u), "    exts:    IMA\n");
}

#[test]
fn the_extension_line_with_a_second_list_and_both_notes() {
    let mut u = Uart::new();
    let shown = Extensions {
        standard: vec!['I', 'C'],
        unspecified: vec!['G', 'S', 'X'],
        aggregate: true,
        nonstandard: true,
    };
    write_extensions(&mut u, &shown);
    assert_eq!(
        sent(&mut u),
        "    exts:    IC (+GSX)\n\
         \x20   note:    Extension bit \"G\" is set,\n\
         \x20            but I don't know how to decode\n\
         \x20            additional standard extensions.\n\
         \x20   note:    Extension bit \"X\" is set,\n\
         \x20            but I don't know how to decode\n\
         \x20            nonstandard extensions.\n"
    );
}

#[test]
fn each_note_alone() {
    let mut u = Uart::new();
    write_notes(&mut u, true, false);
    assert_eq!(
        sent(&mut u),
        "    note:    Extension bit \"G\" is set,\n             but I don't know how to decode\n             additional standard extensions.\n"
    );
    write_notes(&mut u, false, true);
    assert_eq!(
        sent(&mut u),
        "    note:    Extension bit \"X\" is set,\n             but I don't know how to decode\n             nonstandard extensions.\n"
    );
    write_notes(&mut u, false, false);
    assert_eq!(sent(&mut u), "");
}

#[test]
fn the_isa_register_under_the_table_policy() {
    let mut u = Uart::new();
    let bits = (2usize << (usize::BITS - 2)) | bit('I') | bit('M') | bit('A') | bit('S') | bit('U');
    write_misa(&mut u, Some(Misa::from_bits(bits)), DecodePolicy::Table);
    assert_eq!(
        sent(&mut u),
        format!("  misa:      0x{}\n    MXLEN:   64\n    exts:    IMA (+SU)\n", grouped(bits))
    );
}

#[test]
fn the_isa_register_under_the_bit_position_policy() {
    let mut u = Uart::new();
    let bits = (1usize << (usize::BITS - 2)) | 0x1129 | bit('C');
    write_misa(&mut u, Some(Misa::from_bits(bits)), DecodePolicy::BitPosition);
    assert_eq!(
        sent(&mut u),
        format!(
            "  misa:      0x{}\n    MXLEN:   32\n    exts:    CG\n    note:    Extension bit \"G\" is set,\n             but I don't know how to decode\n             additional standard extensions.\n",
            grouped(bits)
        )
    );
}

#[test]
fn the_isa_register_without_a_width() {
    let mut u = Uart::new();
    write_misa(&mut u, Some(Misa::from_bits(bit('I'))), DecodePolicy::Table);
    assert_eq!(sent(&mut u), format!("  misa:      0x{}\n    exts:    I\n", grouped(0x100)));
}

#[test]
fn a_machine_without_the_isa_register() {
    let mut u = Uart::new();
    write_misa(&mut u, None, DecodePolicy::Table);
    assert_eq!(sent(&mut u), format!("  misa:      0x{}\n", grouped(0)));
}

#[test]
fn the_machine_information_block() {
    let mut u = Uart::new();
    let bits = (2usize << (usize::BITS - 2)) | bit('I') | bit('M') | bit('A') | bit('C');
    let info = MachineInfo {
        misa: Some(Misa::from_bits(bits)),
        mvendorid: 0x489,
        marchid: 0x8000_0007,
        mimpid: 0x2019_0531,
        mcause: 0,
    };
    write_machine_info(&mut u, &info, DecodePolicy::Table);
    let expected = format!(
        "machine info:\n\
         \x20 misa:      0x{}\n\
         \x20   MXLEN:   64\n\
         \x20   exts:    IMAC\n\
         \x20 mvendorid: 0x{}\n\
         \x20 marchid:   0x{}\n\
         \x20 mimpid:    0x{}\n\
         \x20 mcause:    0x{}\n",
        grouped(bits),
        grouped(0x489),
        grouped(0x8000_0007),
        grouped(0x2019_0531),
        grouped(0)
    );
    assert_eq!(sent(&mut u), expected);
}

#[test]
fn the_greeting_on_a_sixty_four_bit_machine() {
    if usize::BITS != 64 {
        return;
    }
    let mut u = Uart::new();
    let info = MachineInfo {
        misa: Some(Misa::from_bits(0x8000_0000_0014_112D)),
        mvendorid: 0,
        marchid: 0,
        mimpid: 0,
        mcause: 0x8000_0000_0000_000B,
    };
    write_greeting(&mut u, &info, DecodePolicy::Table);
    assert_eq!(
        sent(&mut u),
        "<<<=== ashtOS-fw ===>>>\n\
         \n\
         machine info:\n\
         \x20 misa:      0x8000_0000_0014_112D\n\
         \x20   MXLEN:   64\n\
         \x20   exts:    IMAFDC (+SU)\n\
         \x20 mvendorid: 0x0000_0000_0000_0000\n\
         \x20 marchid:   0x0000_0000_0000_0000\n\
         \x20 mimpid:    0x0000_0000_0000_0000\n\
         \x20 mcause:    0x8000_0000_0000_000B\n"
    );
    write_greeting(&mut u, &info, DecodePolicy::BitPosition);
    assert_eq!(
        sent(&mut u),
        "<<<=== ashtOS-fw ===>>>\n\
         \n\
         machine info:\n\
         \x20 misa:      0x8000_0000_0014_112D\n\
         \x20   MXLEN:   64\n\
         \x20   exts:    CGSU\n\
         \x20   note:    Extension bit \"G\" is set,\n\
         \x20            but I don't know how to decode\n\
         \x20            additional standard extensions.\n\
         \x20 mvendorid: 0x0000_0000_0000_0000\n\
         \x20 marchid:   0x0000_0000_0000_0000\n\
         \x20 mimpid:    0x0000_0000_0000_0000\n\
         \x20 mcause:    0x8000_0000_0000_000B\n"
    );
}

#[test]
fn the_greeting_leaves_the_receive_path_alone() {
    let mut u = Uart::new();
    u.deliver(0x41);
    u.hold_transmitter(3);
    let info = MachineInfo { misa: None, mvendorid: 1, marchid: 2, mimpid: 3, mcause: 4 };
    write_greeting(&mut u, &info, DecodePolicy::Table);
    assert!(sent(&mut u).starts_with("<<<=== ashtOS-fw ===>>>\n\nmachine info:\n  misa:      0x"));
    assert_eq!(u.try_read_byte(), Some(0x41));
}

#[test]
fn the_three_banners() {
    let mut u = Uart::new();
    report_panic(&mut u);
    assert_eq!(sent(&mut u), "<<<--- ashtOS-fw panic --->>>\n");
    alloc_error(&mut u);
    assert_eq!(sent(&mut u), "<<<--- ashtOS-fw alloc error --->>>\n");
    abort(&mut u);
    assert_eq!(sent(&mut u), "<<<--- ashtOS-fw abort --->>>\n");
}

#[test]
fn a_trap_vector_that_was_taken_says_nothing() {
    let mut u = Uart::new();
    let readback = Mtvec::try_new(0x8000_0100, TrapMode::Vectored).unwrap();
    assert!(verify_trap_vector(&mut u, 0x8000_0100, readback));
    assert_eq!(u.drain(), Vec::<u8>::new());
}

#[test]
fn a_trap_vector_at_another_address_is_fatal() {
    let mut u = Uart::new();
    let readback = Mtvec::from_bits(0x8000_0201);
    assert!(!verify_trap_vector(&mut u, 0x8000_0100, readback));
    assert_eq!(
        sent(&mut u),
        format!(
            "Switching to vectored interrupts...failed!\n\
             \x20 - Can't set base address.\n\
             \x20   Wanted 0x{}.\n\
             \x20   Got    0x{}.\n\
             <<<--- ashtOS-fw abort --->>>\n",
            grouped(0x8000_0100),
            grouped(0x8000_0200)
        )
    );
}

#[test]
fn a_trap_vector_in_another_mode_is_fatal() {
    let mut u = Uart::new();
    let readback = Mtvec::from_bits(0x8000_0100);
    assert!(!verify_trap_vector(&mut u, 0x8000_0100, readback));
    assert_eq!(
        sent(&mut u),
        "Switching to vectored interrupts...failed!\n\
         \x20 - Can't set mode. Wrote 'vectored', read 'direct'.\n\
         <<<--- ashtOS-fw abort --->>>\n"
    );
}

#[test]
fn a_trap_vector_that_took_neither_reports_both() {
    let mut u = Uart::new();
    let readback = Mtvec::from_bits(0);
    assert!(!verify_trap_vector(&mut u, 0x8000_0100, readback));
    assert_eq!(
        sent(&mut u),
        format!(
            "Switching to vectored interrupts...failed!\n\
             \x20 - Can't set base address.\n\
             \x20   Wanted 0x{}.\n\
             \x20   Got    0x{}.\n\
             \x20 - Can't set mode. Wrote 'vectored', read 'direct'.\n\
             <<<--- ashtOS-fw abort --->>>\n",
            grouped(0x8000_0100),
            grouped(0)
        )
    );
}
