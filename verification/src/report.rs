//! The firmware's diagnostic output.
//!
//! Everything the firmware says goes through a [`Uart`]. The functions here
//! fix the wording and the layout: the start-up banner, the machine
//! information block, and the banners of the three fatal conditions. Each
//! contract gives the exact bytes that are added to the transmit log.

use crate::misa::{
    bit_set, effective_bits, mxl_of, standard_letters, unspecified_letters, DecodePolicy,
    Extensions, Misa, Mxl, AGGREGATE_BIT, NONSTANDARD_BIT,
};
use crate::mtvec::{address_of, mode_of, Mtvec, TrapMode};
use crate::uart::{after_poll, hex_text, Uart, DEFAULT_GROUP};
use vstd::prelude::*;
use vstd::string::StringSliceAdditionalSpecFns;

verus! {

/// First line of output after reset.
pub const BANNER: &'static str = "<<<=== ashtOS-fw ===>>>\n";

/// Heading of the machine information block.
pub const MACHINE_INFO_HEADING: &'static str = "machine info:\n";

/// Banner of a panic.
pub const PANIC_BANNER: &'static str = "<<<--- ashtOS-fw panic --->>>\n";

/// Banner of a failed allocation.
pub const ALLOC_ERROR_BANNER: &'static str = "<<<--- ashtOS-fw alloc error --->>>\n";

/// Banner of an abort.
pub const ABORT_BANNER: &'static str = "<<<--- ashtOS-fw abort --->>>\n";

/// What precedes the digits of a register value.
pub const HEX_PREFIX: &'static str = "0x";

/// End of line.
pub const NEWLINE: &'static str = "\n";

/// Label of the ISA register.
pub const MISA_LABEL: &'static str = "  misa:      ";

/// Label of the vendor identifier.
pub const MVENDORID_LABEL: &'static str = "  mvendorid: ";

/// Label of the architecture identifier.
pub const MARCHID_LABEL: &'static str = "  marchid:   ";

/// Label of the implementation identifier.
pub const MIMPID_LABEL: &'static str = "  mimpid:    ";

/// Label of the trap cause.
pub const MCAUSE_LABEL: &'static str = "  mcause:    ";

/// Label of the machine width.
pub const MXLEN_LABEL: &'static str = "    MXLEN:   ";

/// Label of the extension letters.
pub const EXTS_LABEL: &'static str = "    exts:    ";

/// Opens the second list of extension letters.
pub const UNSPEC_OPEN: &'static str = " (+";

/// Closes the second list of extension letters.
pub const UNSPEC_CLOSE: &'static str = ")";

/// Note that goes with the letter G.
pub const AGGREGATE_NOTE: &'static str =
    "    note:    Extension bit \"G\" is set,\n             but I don't know how to decode\n             additional standard extensions.\n";

/// Note that goes with the letter X.
pub const NONSTANDARD_NOTE: &'static str =
    "    note:    Extension bit \"X\" is set,\n             but I don't know how to decode\n             nonstandard extensions.\n";

/// First line of the report of a trap vector that the machine did not take.
pub const VECTOR_FAILED: &'static str = "Switching to vectored interrupts...failed!\n";

/// The machine did not take the base address.
pub const VECTOR_ADDRESS_FAILED: &'static str = "  - Can't set base address.\n";

/// Label of the address that was asked for.
pub const VECTOR_WANTED_LABEL: &'static str = "    Wanted ";

/// Label of the address that was read back.
pub const VECTOR_GOT_LABEL: &'static str = "    Got    ";

/// Ends a line that gives an address.
pub const SENTENCE_END: &'static str = ".\n";

/// The machine did not take vectored mode.
pub const VECTOR_MODE_FAILED: &'static str =
    "  - Can't set mode. Wrote 'vectored', read 'direct'.\n";

/// The hart that runs the firmware; every other hart parks at start-up.
pub const BOOT_HART: usize = 0;

/// The registers that the machine information block shows.
#[derive(Clone, Copy, Debug, PartialEq, Eq)]
pub struct MachineInfo {
    /// The ISA register, or `None` where the machine does not implement it.
    pub misa: Option<Misa>,
    /// The vendor identifier.
    pub mvendorid: usize,
    /// The architecture identifier.
    pub marchid: usize,
    /// The implementation identifier.
    pub mimpid: usize,
    /// The cause of the last trap.
    pub mcause: usize,
}

/// Number of hex digits of a register: one per four bits of machine word.
pub open spec fn register_digits() -> nat {
    (usize::BITS / 4) as nat
}

/// One line for a register: the label, `0x`, the value in grouped hex.
pub open spec fn register_line(label: &str, value: usize) -> Seq<u8> {
    label.spec_bytes() + HEX_PREFIX.spec_bytes() + hex_text(
        value as nat,
        register_digits(),
        DEFAULT_GROUP as nat,
    ) + NEWLINE.spec_bytes()
}

/// The machine width in decimal.
pub open spec fn mxl_text(mxl: Mxl) -> Seq<u8> {
    match mxl {
        Mxl::Xlen32 => "32".spec_bytes(),
        Mxl::Xlen64 => "64".spec_bytes(),
        Mxl::Xlen128 => "128".spec_bytes(),
    }
}

/// The line for the machine width; nothing where the register holds none.
pub open spec fn mxl_line(mxl: Option<Mxl>) -> Seq<u8> {
    match mxl {
        Some(width) => MXLEN_LABEL.spec_bytes() + mxl_text(width) + NEWLINE.spec_bytes(),
        None => Seq::empty(),
    }
}

/// The low code byte of a letter.
pub open spec fn letter_byte() -> spec_fn(char) -> u8 {
    |letter: char| letter as u8
}

/// A list of letters as text: one byte for each.
pub open spec fn letters_text(letters: Seq<char>) -> Seq<u8> {
    letters.map_values(letter_byte())
}

/// The second list of extension letters: in parentheses when it holds a
/// letter, nothing when it holds none.
pub open spec fn second_list_text(unspecified: Seq<char>) -> Seq<u8> {
    if unspecified.len() > 0 {
        UNSPEC_OPEN.spec_bytes() + letters_text(unspecified) + UNSPEC_CLOSE.spec_bytes()
    } else {
        Seq::empty()
    }
}

/// The line of extension letters.
pub open spec fn letters_line(standard: Seq<char>, unspecified: Seq<char>) -> Seq<u8> {
    EXTS_LABEL.spec_bytes() + letters_text(standard) + second_list_text(unspecified)
        + NEWLINE.spec_bytes()
}

/// The notes that go with the letters G and X, in that order.
pub open spec fn notes_text(aggregate: bool, nonstandard: bool) -> Seq<u8> {
    let first = if aggregate {
        AGGREGATE_NOTE.spec_bytes()
    } else {
        Seq::empty()
    };
    let second = if nonstandard {
        NONSTANDARD_NOTE.spec_bytes()
    } else {
        Seq::empty()
    };
    first + second
}

/// The line of extension letters and the notes that follow it.
pub open spec fn extensions_text(
    standard: Seq<char>,
    unspecified: Seq<char>,
    aggregate: bool,
    nonstandard: bool,
) -> Seq<u8> {
    letters_line(standard, unspecified) + notes_text(aggregate, nonstandard)
}

/// What is shown of an ISA register with the value `bits` besides the value
/// itself: width, letters and notes.
pub open spec fn misa_details_text(bits: usize, policy: DecodePolicy) -> Seq<u8> {
    let shown = effective_bits(bits, policy);
    mxl_line(mxl_of(bits)) + extensions_text(
        standard_letters(bits, policy),
        unspecified_letters(bits, policy),
        bit_set(shown, AGGREGATE_BIT as nat),
        bit_set(shown, NONSTANDARD_BIT as nat),
    )
}

/// The ISA register's part of the block. A machine without the register
/// shows the value zero and no details.
pub open spec fn misa_text(misa: Option<Misa>, policy: DecodePolicy) -> Seq<u8> {
    match misa {
        Some(value) => register_line(MISA_LABEL, value.spec_bits()) + misa_details_text(
            value.spec_bits(),
            policy,
        ),
        None => register_line(MISA_LABEL, 0),
    }
}

/// The whole machine information block.
pub open spec fn machine_info_text(info: MachineInfo, policy: DecodePolicy) -> Seq<u8> {
    MACHINE_INFO_HEADING.spec_bytes() + misa_text(info.misa, policy) + register_line(
        MVENDORID_LABEL,
        info.mvendorid,
    ) + register_line(MARCHID_LABEL, info.marchid) + register_line(MIMPID_LABEL, info.mimpid)
        + register_line(MCAUSE_LABEL, info.mcause)
}

/// What the firmware says at start-up: banner, an empty line, the block.
pub open spec fn greeting_text(info: MachineInfo, policy: DecodePolicy) -> Seq<u8> {
    BANNER.spec_bytes() + NEWLINE.spec_bytes() + machine_info_text(info, policy)
}

/// Whether the hart with this identifier is the one that runs the firmware.
pub fn is_boot_hart(hart_id: usize) -> (runs: bool)
    ensures
        runs == (hart_id == BOOT_HART),
{
    hart_id == BOOT_HART
}

/// Number of hex digits of a register on this machine.
pub fn register_digit_count() -> (digits: usize)
    ensures
        digits == register_digits(),
{
    (usize::BITS / 4) as usize
}

/// Writes one register line.
pub fn write_register_line(u: &mut Uart, label: &str, value: usize)
    ensures
        final(u).has_sent(*old(u), register_line(label, value)),
{
    u.write(label);
    u.write(HEX_PREFIX);
    u.write_int_hex(value, register_digit_count());
    u.write(NEWLINE);
}

/// Writes the line for the machine width, if the register holds one.
pub fn write_mxl_line(u: &mut Uart, mxl: Option<Mxl>)
    ensures
        final(u).has_sent(*old(u), mxl_line(mxl)),
{
    match mxl {
        Some(width) => {
            let mxl_str = match width {
                Mxl::Xlen32 => "32",
                Mxl::Xlen64 => "64",
                Mxl::Xlen128 => "128",
            };
            u.write(MXLEN_LABEL);
            u.write(mxl_str);
            u.write(NEWLINE);
        },
        None => {},
    }
}

/// Writes a list of letters, one byte for each.
pub fn write_letters(u: &mut Uart, letters: &[char])
    ensures
        final(u).has_sent(*old(u), letters_text(letters@)),
{
    let mut i: usize = 0;
    while i < letters.len()
        invariant
            i <= letters@.len(),
            u.has_sent(*old(u), letters_text(letters@.take(i as int))),
        decreases letters@.len() - i,
    {
        u.write_byte(letters[i] as u8);
        assert(letters@.take(i + 1) == letters@.take(i as int).push(letters@[i as int]));
        assert(letters_text(letters@.take(i + 1)) == letters_text(letters@.take(i as int))
            + seq![letters@[i as int] as u8]);
        i = i + 1;
    }
    assert(letters@.take(letters@.len() as int) == letters@);
}

/// Writes the second list of extension letters, if it holds any.
pub fn write_second_list(u: &mut Uart, unspecified: &[char])
    ensures
        final(u).has_sent(*old(u), second_list_text(unspecified@)),
{
    if unspecified.len() > 0 {
        u.write(UNSPEC_OPEN);
        write_letters(u, unspecified);
        u.write(UNSPEC_CLOSE);
    }
}

/// Writes the line of extension letters.
pub fn write_letters_line(u: &mut Uart, standard: &[char], unspecified: &[char])
    ensures
        final(u).has_sent(*old(u), letters_line(standard@, unspecified@)),
{
    u.write(EXTS_LABEL);
    write_letters(u, standard);
    write_second_list(u, unspecified);
    u.write(NEWLINE);
}

/// Writes the notes that go with the letters G and X.
pub fn write_notes(u: &mut Uart, aggregate: bool, nonstandard: bool)
    ensures
        final(u).has_sent(*old(u), notes_text(aggregate, nonstandard)),
{
    if aggregate {
        u.write(AGGREGATE_NOTE);
    }
    if nonstandard {
        u.write(NONSTANDARD_NOTE);
    }
}

/// Writes the line of extension letters and the notes that follow it.
pub fn write_extensions(u: &mut Uart, shown: &Extensions)
    ensures
        final(u).has_sent(*old(u), extensions_text(
            shown.standard@,
            shown.unspecified@,
            shown.aggregate,
            shown.nonstandard,
        )),
{
    write_letters_line(u, shown.standard.as_slice(), shown.unspecified.as_slice());
    write_notes(u, shown.aggregate, shown.nonstandard);
}

/// Writes the ISA register's part of the block.
pub fn write_misa(u: &mut Uart, misa: Option<Misa>, policy: DecodePolicy)
    ensures
        final(u).has_sent(*old(u), misa_text(misa, policy)),
{
    match misa {
        Some(value) => {
            write_register_line(u, MISA_LABEL, value.bits());
            write_mxl_line(u, value.mxl());
            let shown = value.decode(policy);
            write_extensions(u, &shown);
        },
        None => {
            write_register_line(u, MISA_LABEL, 0);
        },
    }
}

/// Writes the machine information block.
pub fn write_machine_info(u: &mut Uart, info: &MachineInfo, policy: DecodePolicy)
    ensures
        final(u).has_sent(*old(u), machine_info_text(*info, policy)),
{
    u.write(MACHINE_INFO_HEADING);
    write_misa(u, info.misa, policy);
    write_register_line(u, MVENDORID_LABEL, info.mvendorid);
    write_register_line(u, MARCHID_LABEL, info.marchid);
    write_register_line(u, MIMPID_LABEL, info.mimpid);
    write_register_line(u, MCAUSE_LABEL, info.mcause);
}

/// Writes what the firmware says at start-up.
pub fn write_greeting(u: &mut Uart, info: &MachineInfo, policy: DecodePolicy)
    ensures
        final(u).has_sent(*old(u), greeting_text(*info, policy)),
{
    u.write(BANNER);
    u.write(NEWLINE);
    write_machine_info(u, info, policy);
}

/// Reports a panic. The caller halts afterwards.
pub fn panic(u: &mut Uart)
    ensures
        final(u).has_sent(*old(u), PANIC_BANNER.spec_bytes()),
{
    u.write(PANIC_BANNER);
}

/// Reports a failed allocation. The caller halts afterwards.
pub fn alloc_error(u: &mut Uart)
    ensures
        final(u).has_sent(*old(u), ALLOC_ERROR_BANNER.spec_bytes()),
{
    u.write(ALLOC_ERROR_BANNER);
}

/// Reports an abort. The caller halts afterwards.
pub fn abort(u: &mut Uart)
    ensures
        final(u).has_sent(*old(u), ABORT_BANNER.spec_bytes()),
{
    u.write(ABORT_BANNER);
}

/// One line that gives an address: the label, `0x`, the address in grouped
/// hex, a full stop.
pub open spec fn address_line(label: &str, address: usize) -> Seq<u8> {
    label.spec_bytes() + HEX_PREFIX.spec_bytes() + hex_text(
        address as nat,
        register_digits(),
        DEFAULT_GROUP as nat,
    ) + SENTENCE_END.spec_bytes()
}

/// What is said of a base address that the machine did not take.
pub open spec fn address_failure_text(wanted: usize, got: usize) -> Seq<u8> {
    VECTOR_ADDRESS_FAILED.spec_bytes() + address_line(VECTOR_WANTED_LABEL, wanted) + address_line(
        VECTOR_GOT_LABEL,
        got,
    )
}

/// Whether a register value read back shows vectored dispatch at `wanted`.
pub open spec fn trap_vector_taken(wanted: usize, readback: Mtvec) -> bool {
    address_of(readback.spec_bits()) == wanted && mode_of(readback.spec_bits()) == Some(
        TrapMode::Vectored,
    )
}

/// What is said after the trap-vector register was read back: nothing if
/// the machine took the request, and otherwise what it refused, followed by
/// the abort banner.
pub open spec fn trap_vector_text(wanted: usize, readback: Mtvec) -> Seq<u8> {
    if trap_vector_taken(wanted, readback) {
        Seq::empty()
    } else {
        let address_part = if address_of(readback.spec_bits()) == wanted {
            Seq::empty()
        } else {
            address_failure_text(wanted, address_of(readback.spec_bits()))
        };
        let mode_part = if mode_of(readback.spec_bits()) == Some(TrapMode::Vectored) {
            Seq::empty()
        } else {
            VECTOR_MODE_FAILED.spec_bytes()
        };
        VECTOR_FAILED.spec_bytes() + address_part + mode_part + ABORT_BANNER.spec_bytes()
    }
}

/// Writes one line that gives an address.
pub fn write_address_line(u: &mut Uart, label: &str, address: usize)
    ensures
        final(u).has_sent(*old(u), address_line(label, address)),
{
    u.write(label);
    u.write(HEX_PREFIX);
    u.write_int_hex(address, register_digit_count());
    u.write(SENTENCE_END);
}

/// Writes what is said of a base address that the machine did not take.
pub fn write_address_failure(u: &mut Uart, wanted: usize, got: usize)
    ensures
        final(u).has_sent(*old(u), address_failure_text(wanted, got)),
{
    u.write(VECTOR_ADDRESS_FAILED);
    write_address_line(u, VECTOR_WANTED_LABEL, wanted);
    write_address_line(u, VECTOR_GOT_LABEL, got);
}

/// Judges the trap-vector register as read back after asking for vectored
/// dispatch at `wanted`.
///
/// A register that shows what was asked for says nothing and lets the
/// firmware go on. Any mismatch is fatal: it is reported, the abort banner
/// follows, and the caller halts.
pub fn verify_trap_vector(u: &mut Uart, wanted: usize, readback: Mtvec) -> (proceed: bool)
    ensures
        proceed == trap_vector_taken(wanted, readback),
        final(u).has_sent(*old(u), trap_vector_text(wanted, readback)),
{
    let check = readback.check(wanted);
    if check.passed() {
        return true;
    }
    u.write(VECTOR_FAILED);
    if !check.addr_okay {
        write_address_failure(u, wanted, readback.address());
    }
    if !check.mode_okay {
        u.write(VECTOR_MODE_FAILED);
    }
    abort(u);
    false
}

/// One round of the echo loop: takes the next received byte and sends it
/// back unchanged.
pub fn echo_once(u: &mut Uart) -> (byte: u8)
    requires
        old(u).pending().len() > 0,
    ensures
        byte == old(u).pending()[0],
        final(u).pending() == old(u).pending().remove(0),
        final(u).transmitted() == old(u).transmitted().push(byte),
        final(u).busy_polls() == 0,
{
    let byte = u.read_byte();
    u.write_byte(byte);
    byte
}

/// Echoes everything that is waiting in the receive path, in order.
pub fn echo_pending(u: &mut Uart)
    ensures
        final(u).pending() == Seq::<u8>::empty(),
        final(u).transmitted() == old(u).transmitted() + old(u).pending(),
        final(u).busy_polls() == if old(u).pending().len() > 0 {
            0
        } else {
            after_poll(old(u).busy_polls())
        },
{
    loop
        invariant_except_break
            u.busy_polls() == if u.pending().len() < old(u).pending().len() {
                0
            } else {
                old(u).busy_polls()
            },
        invariant
            u.transmitted() + u.pending() == old(u).transmitted() + old(u).pending(),
            u.pending().len() <= old(u).pending().len(),
        ensures
            u.pending() == Seq::<u8>::empty(),
            u.busy_polls() == if old(u).pending().len() > 0 {
                0
            } else {
                after_poll(old(u).busy_polls())
            },
        decreases u.pending().len(),
    {
        let ghost before = *u;
        match u.try_read_byte() {
            Some(byte) => {
                u.write_byte(byte);
                assert(u.transmitted() + u.pending() == before.transmitted() + before.pending());
            },
            None => {
                break ;
            },
        }
    }
}

} // verus!
