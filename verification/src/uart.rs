//! Polled serial transport.
//!
//! [`Uart`] is a register-level model of a 16550-style serial port together
//! with the polling driver that runs on top of it. The port exposes two
//! byte-wide registers: the data register at offset 0 and the line status
//! register at offset 5. The driver never waits on anything but the status
//! bits, so every blocking operation is a poll loop over
//! [`Uart::read_register`].
//!
//! The model keeps the line's two directions as queues: the receive path
//! (bytes that arrived and were not read yet) and the transmit log (bytes the
//! transmitter accepted, oldest first). A transmitter may be busy for a
//! number of status polls; while it is, the holding register is reported as
//! full and writes to the data register are lost.

use vstd::arithmetic::power2::pow2;
use vstd::prelude::*;
use vstd::string::StringSliceAdditionalSpecFns;

verus! {

/// Offset of the data register.
pub const DATA_REGISTER: usize = 0;

/// Offset of the line status register.
pub const LINE_STATUS_REGISTER: usize = 5;

/// Line status bit 0: a received byte is waiting in the data register.
pub const DATA_READY: u8 = 0x01;

/// Line status bit 5: the transmit holding register is empty.
pub const TRANSMIT_EMPTY: u8 = 0x20;

/// ASCII underscore, the separator between groups of hex digits.
pub const GROUP_SEPARATOR: u8 = 0x5F;

/// Width of a digit group in [`Uart::write_int_hex`].
pub const DEFAULT_GROUP: usize = 4;

/// The sixteen upper-case hex digits, indexed by value.
pub const HEX_DIGITS: [u8; 16] = [
    0x30, 0x31, 0x32, 0x33, 0x34, 0x35, 0x36, 0x37, 0x38, 0x39, 0x41, 0x42, 0x43, 0x44, 0x45, 0x46,
];

/// ASCII code of the upper-case hex digit with value `n`, for `n` below 16.
pub open spec fn hex_digit(n: int) -> u8 {
    if n < 10 {
        (0x30 + n) as u8
    } else {
        (0x41 + n - 10) as u8
    }
}

/// Value of hex digit number `i` of `x`, digit 0 being the least significant.
pub open spec fn nibble_at(x: nat, i: nat) -> nat {
    (x / pow2(4 * i)) % 16
}

/// Whether a separator follows digit number `i` when digits come in groups
/// of `group`: after every digit whose index is a multiple of the group
/// width, except the last digit of the number.
pub open spec fn separator_after(i: nat, group: nat) -> bool {
    i != 0 && i % group == 0
}

/// The text of `x` as `digits` hex digits, most significant first, with an
/// underscore between groups of `group` digits counted from the right.
/// Digits beyond the width of `x` are zero.
pub open spec fn hex_text(x: nat, digits: nat, group: nat) -> Seq<u8>
    decreases digits,
{
    if digits == 0 {
        Seq::empty()
    } else {
        let i = (digits - 1) as nat;
        let head = seq![hex_digit(nibble_at(x, i) as int)];
        let sep = if separator_after(i, group) {
            seq![GROUP_SEPARATOR]
        } else {
            Seq::empty()
        };
        head + sep + hex_text(x, i, group)
    }
}

/// Number of separators in a text of `digits` digits in groups of `group`.
pub open spec fn separator_count(digits: nat, group: nat) -> nat {
    if digits == 0 {
        0
    } else {
        ((digits - 1) / group as int) as nat
    }
}

/// What a read of the line status register returns for a port with
/// `pending` bytes waiting and a transmitter busy for `busy` more polls.
pub open spec fn line_status(pending: Seq<u8>, busy: nat) -> u8 {
    let ready: u8 = if pending.len() > 0 {
        DATA_READY
    } else {
        0
    };
    let empty: u8 = if busy == 0 {
        TRANSMIT_EMPTY
    } else {
        0
    };
    ready | empty
}

/// Whether a line status value shows an empty transmit holding register.
pub open spec fn shows_transmit_empty(status: u8) -> bool {
    status & TRANSMIT_EMPTY != 0
}

/// Whether a line status value shows a received byte waiting.
pub open spec fn shows_data_ready(status: u8) -> bool {
    status & DATA_READY != 0
}

/// Busy count after one poll of the line status register.
pub open spec fn after_poll(busy: nat) -> nat {
    if busy == 0 {
        0
    } else {
        (busy - 1) as nat
    }
}

/// Busy count after the driver transmitted `text`: to get a byte out it
/// polls until the transmitter is ready, and with nothing to send it does
/// not poll at all.
pub open spec fn busy_after(busy: nat, text: Seq<u8>) -> nat {
    if text.len() > 0 {
        0
    } else {
        busy
    }
}

/// A polled serial port.
pub struct Uart {
    rx: Vec<u8>,
    tx: Vec<u8>,
    busy: usize,
}

impl Uart {
    /// Bytes waiting in the receive path, next to be read first.
    pub closed spec fn pending(&self) -> Seq<u8> {
        self.rx@
    }

    /// Everything the transmitter accepted since the last drain, oldest first.
    pub closed spec fn transmitted(&self) -> Seq<u8> {
        self.tx@
    }

    /// Number of status polls that will still report a full holding register.
    pub closed spec fn busy_polls(&self) -> nat {
        self.busy as nat
    }

    /// Whether this port is `before` after the driver transmitted `text` and
    /// did nothing else: the text joined the transmit log and the receive
    /// path is untouched.
    pub open spec fn has_sent(self, before: Uart, text: Seq<u8>) -> bool {
        &&& self.transmitted() =~= before.transmitted() + text
        &&& self.pending() =~= before.pending()
        &&& self.busy_polls() == busy_after(before.busy_polls(), text)
    }

    /// An idle port: nothing received, nothing sent, transmitter ready.
    pub fn new() -> (u: Uart)
        ensures
            u.pending() == Seq::<u8>::empty(),
            u.transmitted() == Seq::<u8>::empty(),
            u.busy_polls() == 0,
    {
        Uart { rx: Vec::new(), tx: Vec::new(), busy: 0 }
    }

    /// The line delivers `byte`: it joins the end of the receive path.
    pub fn deliver(&mut self, byte: u8)
        ensures
            final(self).pending() == old(self).pending().push(byte),
            final(self).transmitted() == old(self).transmitted(),
            final(self).busy_polls() == old(self).busy_polls(),
    {
        self.rx.push(byte);
    }

    /// Takes everything transmitted so far off the line.
    pub fn drain(&mut self) -> (out: Vec<u8>)
        ensures
            out@ == old(self).transmitted(),
            final(self).transmitted() == Seq::<u8>::empty(),
            final(self).pending() == old(self).pending(),
            final(self).busy_polls() == old(self).busy_polls(),
    {
        let mut out: Vec<u8> = Vec::new();
        out.append(&mut self.tx);
        out
    }

    /// Keeps the transmitter busy for the next `polls` status polls.
    pub fn hold_transmitter(&mut self, polls: usize)
        ensures
            final(self).busy_polls() == polls,
            final(self).pending() == old(self).pending(),
            final(self).transmitted() == old(self).transmitted(),
    {
        self.busy = polls;
    }

    /// Reads the register at `offset`.
    ///
    /// The line status register reports the two status bits and counts as
    /// one poll. The data register yields the next received byte and removes
    /// it from the receive path; with nothing waiting it reads as zero. Any
    /// other offset reads as zero.
    pub fn read_register(&mut self, offset: usize) -> (value: u8)
        ensures
            final(self).transmitted() == old(self).transmitted(),
            offset == LINE_STATUS_REGISTER ==> {
                &&& value == line_status(old(self).pending(), old(self).busy_polls())
                &&& final(self).pending() == old(self).pending()
                &&& final(self).busy_polls() == after_poll(old(self).busy_polls())
            },
            offset == DATA_REGISTER && old(self).pending().len() > 0 ==> {
                &&& value == old(self).pending()[0]
                &&& final(self).pending() == old(self).pending().remove(0)
                &&& final(self).busy_polls() == old(self).busy_polls()
            },
            !(offset == LINE_STATUS_REGISTER) && !(offset == DATA_REGISTER && old(
                self,
            ).pending().len() > 0) ==> {
                &&& value == 0
                &&& final(self).pending() == old(self).pending()
                &&& final(self).busy_polls() == old(self).busy_polls()
            },
    {
        if offset == LINE_STATUS_REGISTER {
            let ready: u8 = if self.rx.len() > 0 {
                DATA_READY
            } else {
                0
            };
            let empty: u8 = if self.busy == 0 {
                TRANSMIT_EMPTY
            } else {
                0
            };
            if self.busy > 0 {
                self.busy = self.busy - 1;
            }
            ready | empty
        } else if offset == DATA_REGISTER && self.rx.len() > 0 {
            self.rx.remove(0)
        } else {
            0
        }
    }

    /// Writes `value` to the register at `offset`.
    ///
    /// A write to the data register is transmitted when the holding register
    /// is empty and lost when it is not. Every other register ignores writes.
    pub fn write_register(&mut self, offset: usize, value: u8)
        ensures
            final(self).pending() == old(self).pending(),
            final(self).busy_polls() == old(self).busy_polls(),
            final(self).transmitted() == if offset == DATA_REGISTER && old(self).busy_polls()
                == 0 {
                old(self).transmitted().push(value)
            } else {
                old(self).transmitted()
            },
    {
        if offset == DATA_REGISTER && self.busy == 0 {
            self.tx.push(value);
        }
    }

    /// Whether a line status value shows an empty transmit holding
    /// register, so that the data register takes a byte.
    pub fn transmit_ready(status: u8) -> (ready: bool)
        ensures
            ready == shows_transmit_empty(status),
    {
        status & TRANSMIT_EMPTY != 0
    }

    /// Whether a line status value shows a received byte waiting in the
    /// data register.
    pub fn receive_ready(status: u8) -> (ready: bool)
        ensures
            ready == shows_data_ready(status),
    {
        status & DATA_READY != 0
    }

    /// Offers `x` to the transmitter without waiting.
    ///
    /// Polls the line status register once. The byte is accepted, and
    /// transmitted, exactly when the holding register was empty.
    pub fn try_write_byte(&mut self, x: u8) -> (accepted: bool)
        ensures
            accepted == (old(self).busy_polls() == 0),
            accepted ==> final(self).transmitted() == old(self).transmitted().push(x),
            !accepted ==> final(self).transmitted() == old(self).transmitted(),
            final(self).busy_polls() == after_poll(old(self).busy_polls()),
            final(self).pending() == old(self).pending(),
    {
        let status = self.read_register(LINE_STATUS_REGISTER);
        let ready = Uart::transmit_ready(status);
        proof {
            lemma_status_bits(old(self).pending(), old(self).busy_polls());
        }
        if ready {
            self.write_register(DATA_REGISTER, x);
        }
        ready
    }

    /// Transmits `x`, polling until the transmitter takes it.
    pub fn write_byte(&mut self, x: u8)
        ensures
            final(self).has_sent(*old(self), seq![x]),
    {
        loop
            invariant_except_break
                self.transmitted() == old(self).transmitted(),
            invariant
                self.pending() == old(self).pending(),
            ensures
                self.transmitted() == old(self).transmitted().push(x),
                self.busy_polls() == 0,
            decreases self.busy_polls(),
        {
            if self.try_write_byte(x) {
                break ;
            }
        }
    }

    /// Transmits the bytes of `x` in order.
    pub fn write_bytes(&mut self, x: &[u8])
        ensures
            final(self).has_sent(*old(self), x@),
    {
        let mut i: usize = 0;
        while i < x.len()
            invariant
                i <= x@.len(),
                self.has_sent(*old(self), x@.take(i as int)),
            decreases x@.len() - i,
        {
            self.write_byte(x[i]);
            assert(x@.take(i as int) + seq![x@[i as int]] == x@.take(i + 1));
            i = i + 1;
        }
        assert(x@.take(x@.len() as int) == x@);
    }

    /// Transmits the UTF-8 bytes of `x`.
    pub fn write(&mut self, x: &str)
        ensures
            final(self).has_sent(*old(self), x.spec_bytes()),
    {
        self.write_bytes(x.as_bytes());
    }

    /// Transmits the upper-case hex digit of the nibble `x`.
    pub fn write_nibble_hex(&mut self, x: u8)
        requires
            x < 16,
        ensures
            final(self).has_sent(*old(self), seq![hex_digit(x as int)]),
    {
        self.write_byte(HEX_DIGITS[x as usize]);
    }

    /// Transmits `x` as `digit_count` hex digits, most significant first,
    /// with an underscore between groups of four digits.
    pub fn write_int_hex(&mut self, x: usize, digit_count: usize)
        ensures
            final(self).has_sent(
                *old(self),
                hex_text(x as nat, digit_count as nat, DEFAULT_GROUP as nat),
            ),
    {
        self.write_int_hex_grouped(x, digit_count, DEFAULT_GROUP);
    }

    /// Transmits `x` as `digit_count` hex digits, most significant first,
    /// with an underscore between groups of `group` digits.
    pub fn write_int_hex_grouped(&mut self, x: usize, digit_count: usize, group: usize)
        requires
            group > 0,
        ensures
            final(self).has_sent(*old(self), hex_text(x as nat, digit_count as nat, group as nat)),
    {
        let mut i: usize = digit_count;
        while i > 0
            invariant
                i <= digit_count,
                group > 0,
                self.transmitted() + hex_text(x as nat, i as nat, group as nat) == old(
                    self,
                ).transmitted() + hex_text(x as nat, digit_count as nat, group as nat),
                self.pending() == old(self).pending(),
                self.busy_polls() == if i < digit_count {
                    0
                } else {
                    old(self).busy_polls()
                },
            decreases i,
        {
            let ghost before = self.transmitted();
            i = i - 1;
            let nibble = nibble_of(x, i);
            self.write_nibble_hex(nibble);
            if i % group == 0 && i != 0 {
                self.write_byte(GROUP_SEPARATOR);
            }
            assert(self.transmitted() + hex_text(x as nat, i as nat, group as nat) == before
                + hex_text(x as nat, (i + 1) as nat, group as nat));
        }
    }

    /// Takes the next received byte if one is waiting.
    ///
    /// Polls the line status register once.
    pub fn try_read_byte(&mut self) -> (byte: Option<u8>)
        ensures
            old(self).pending().len() > 0 ==> {
                &&& byte == Some(old(self).pending()[0])
                &&& final(self).pending() == old(self).pending().remove(0)
            },
            old(self).pending().len() == 0 ==> {
                &&& byte.is_none()
                &&& final(self).pending() == old(self).pending()
            },
            final(self).transmitted() == old(self).transmitted(),
            final(self).busy_polls() == after_poll(old(self).busy_polls()),
    {
        let status = self.read_register(LINE_STATUS_REGISTER);
        let ready = Uart::receive_ready(status);
        proof {
            lemma_status_bits(old(self).pending(), old(self).busy_polls());
        }
        if ready {
            Some(self.read_register(DATA_REGISTER))
        } else {
            None
        }
    }

    /// Takes the next received byte, polling until one is there.
    ///
    /// The receive path only grows through [`Uart::deliver`], so on a port
    /// with nothing waiting this would poll forever.
    pub fn read_byte(&mut self) -> (byte: u8)
        requires
            old(self).pending().len() > 0,
        ensures
            byte == old(self).pending()[0],
            final(self).pending() == old(self).pending().remove(0),
            final(self).transmitted() == old(self).transmitted(),
            final(self).busy_polls() == after_poll(old(self).busy_polls()),
    {
        loop
            invariant
                *self == *old(self),
                self.pending().len() > 0,
            decreases 0nat,
        {
            let mx = self.try_read_byte();
            if let Some(x) = mx {
                return x;
            }
        }
    }
}

/// The two status bits can be told apart in what the line status register
/// returns.
pub proof fn lemma_status_bits(pending: Seq<u8>, busy: nat)
    ensures
        shows_transmit_empty(line_status(pending, busy)) == (busy == 0),
        shows_data_ready(line_status(pending, busy)) == (pending.len() > 0),
{
    assert((0x01u8 | 0x20u8) & 0x20u8 != 0 && (0x01u8 | 0x20u8) & 0x01u8 != 0) by (bit_vector);
    assert((0x01u8 | 0u8) & 0x20u8 == 0 && (0x01u8 | 0u8) & 0x01u8 != 0) by (bit_vector);
    assert((0u8 | 0x20u8) & 0x20u8 != 0 && (0u8 | 0x20u8) & 0x01u8 == 0) by (bit_vector);
    assert((0u8 | 0u8) & 0x20u8 == 0 && (0u8 | 0u8) & 0x01u8 == 0) by (bit_vector);
}

/// Value of hex digit number `i` of `x`; zero beyond the width of `x`.
pub fn nibble_of(x: usize, i: usize) -> (n: u8)
    ensures
        n < 16,
        n as nat == nibble_at(x as nat, i as nat),
{
    if i < (usize::BITS / 4) as usize {
        let shift: usize = 4 * i;
        let n = (x >> shift) & 0xF;
        proof {
            let y = x >> shift;
            assert(y & 0xF == y % 16) by (bit_vector);
            vstd::bits::lemma_usize_shr_is_div(x, shift);
        }
        n as u8
    } else {
        proof {
            lemma_high_nibble_is_zero(x, i);
        }
        0
    }
}

/// Hex digits beyond the width of `usize` are zero.
proof fn lemma_high_nibble_is_zero(x: usize, i: usize)
    requires
        4 * i >= usize::BITS,
    ensures
        nibble_at(x as nat, i as nat) == 0,
{
    vstd::arithmetic::power2::lemma2_to64();
    vstd::arithmetic::power2::lemma2_to64_rest();
    if 4 * i > usize::BITS {
        vstd::arithmetic::power2::lemma_pow2_strictly_increases(usize::BITS as nat, (4 * i) as nat);
    }
    assert(x < pow2((4 * i) as nat));
    vstd::arithmetic::div_mod::lemma_basic_div(x as int, pow2((4 * i) as nat) as int);
}

/// Whether `byte` is an upper-case hex digit.
pub open spec fn is_hex_digit(byte: u8) -> bool {
    (0x30 <= byte <= 0x39) || (0x41 <= byte <= 0x46)
}

/// The text of a number has a fixed width: one byte for each digit and one
/// for each separator, whatever the number is.
pub proof fn lemma_hex_text_len(x: nat, digits: nat, group: nat)
    requires
        group > 0,
    ensures
        hex_text(x, digits, group).len() == digits + separator_count(digits, group),
    decreases digits,
{
    if digits > 0 {
        let i = (digits - 1) as nat;
        lemma_hex_text_len(x, i, group);
        if i > 0 {
            let previous = (i - 1) as int;
            vstd::arithmetic::div_mod::lemma_fundamental_div_mod(i as int, group as int);
            vstd::arithmetic::div_mod::lemma_fundamental_div_mod(previous, group as int);
            vstd::arithmetic::div_mod::lemma_mod_bound(previous, group as int);
            let quotient = i as int / group as int;
            let rest = i as int % group as int;
            if rest == 0 {
                assert(previous == (quotient - 1) * group + (group - 1)) by (nonlinear_arith)
                    requires
                        previous == i - 1,
                        i == group * quotient + rest,
                        rest == 0,
                ;
                vstd::arithmetic::div_mod::lemma_fundamental_div_mod_converse(
                    previous,
                    group as int,
                    quotient - 1,
                    group as int - 1,
                );
            } else {
                assert(previous == quotient * group + (rest - 1)) by (nonlinear_arith)
                    requires
                        previous == i - 1,
                        i == group * quotient + rest,
                ;
                vstd::arithmetic::div_mod::lemma_fundamental_div_mod_converse(
                    previous,
                    group as int,
                    quotient,
                    rest - 1,
                );
            }
        }
    }
}

/// The text of a number holds hex digits and separators only.
pub proof fn lemma_hex_text_alphabet(x: nat, digits: nat, group: nat, at: int)
    requires
        0 <= at < hex_text(x, digits, group).len(),
    ensures
        is_hex_digit(hex_text(x, digits, group)[at]) || hex_text(x, digits, group)[at]
            == GROUP_SEPARATOR,
    decreases digits,
{
    if digits > 0 {
        let i = (digits - 1) as nat;
        let head = seq![hex_digit(nibble_at(x, i) as int)];
        let sep = if separator_after(i, group) {
            seq![GROUP_SEPARATOR]
        } else {
            Seq::empty()
        };
        if at >= (head + sep).len() {
            lemma_hex_text_alphabet(x, i, group, at - (head + sep).len());
        }
    }
}

} // verus!
