//! The machine trap-vector register.
//!
//! The register holds the address of the trap vector in all but its two low
//! bits, and the dispatch mode in those two. The firmware asks for vectored
//! dispatch at a fixed address, reads the register back and goes on only if
//! the machine took both.

use vstd::prelude::*;

verus! {

/// The two low bits of the register, which hold the dispatch mode.
pub const MODE_MASK: usize = 0b11;

/// How the machine dispatches traps.
#[derive(Clone, Copy, Debug, PartialEq, Eq, Structural)]
pub enum TrapMode {
    /// Every trap enters at the base address.
    Direct,
    /// Interrupts enter at the base address plus four times their cause.
    Vectored,
}

/// The code of a dispatch mode in the register's two low bits.
pub open spec fn mode_code(mode: TrapMode) -> usize {
    match mode {
        TrapMode::Direct => 0,
        TrapMode::Vectored => 1,
    }
}

/// The base address held in a register value: all but the two low bits.
pub open spec fn address_of(bits: usize) -> usize {
    bits & !MODE_MASK
}

/// The dispatch mode held in a register value, if its two low bits hold a
/// defined code.
pub open spec fn mode_of(bits: usize) -> Option<TrapMode> {
    let code = bits & MODE_MASK;
    if code == 0 {
        Some(TrapMode::Direct)
    } else if code == 1 {
        Some(TrapMode::Vectored)
    } else {
        None
    }
}

/// The register value for a base address and a mode. An address that is
/// not a multiple of four has none.
pub open spec fn value_for(address: usize, mode: TrapMode) -> Option<usize> {
    if address & MODE_MASK != 0 {
        None
    } else {
        Some(address | mode_code(mode))
    }
}

/// A value of the trap-vector register.
#[derive(Clone, Copy, Debug, PartialEq, Eq, Structural)]
pub struct Mtvec {
    raw: usize,
}

/// What reading the register back showed.
#[derive(Clone, Copy, Debug, PartialEq, Eq, Structural)]
pub struct TrapVectorCheck {
    /// The register holds the address that was asked for.
    pub addr_okay: bool,
    /// The register holds vectored mode.
    pub mode_okay: bool,
}

impl TrapVectorCheck {
    /// Whether the machine took both the address and the mode.
    pub open spec fn spec_passed(&self) -> bool {
        self.addr_okay && self.mode_okay
    }

    /// Whether the machine took both the address and the mode.
    #[verifier::when_used_as_spec(spec_passed)]
    pub fn passed(&self) -> (ok: bool)
        ensures
            ok == self.spec_passed(),
    {
        self.addr_okay && self.mode_okay
    }
}

impl Mtvec {
    /// The raw register value.
    pub closed spec fn spec_bits(&self) -> usize {
        self.raw
    }

    /// Wraps a raw register value.
    pub fn from_bits(bits: usize) -> (mtvec: Mtvec)
        ensures
            mtvec.spec_bits() == bits,
    {
        Mtvec { raw: bits }
    }

    /// The register value for `address` and `mode`, or `None` if the
    /// address is not a multiple of four.
    pub fn try_new(address: usize, mode: TrapMode) -> (mtvec: Option<Mtvec>)
        ensures
            match mtvec {
                Some(value) => value_for(address, mode) == Some(value.spec_bits()),
                None => value_for(address, mode).is_none(),
            },
    {
        match mtvec_try_new(address, mode) {
            Some(bits) => Some(Mtvec { raw: bits }),
            None => None,
        }
    }

    /// The raw register value.
    pub fn bits(&self) -> (bits: usize)
        ensures
            bits == self.spec_bits(),
    {
        self.raw
    }

    /// The base address of the trap vector.
    pub fn address(&self) -> (address: usize)
        ensures
            address == address_of(self.spec_bits()),
    {
        mtvec_address(self.raw)
    }

    /// The dispatch mode, if the register holds a defined one.
    pub fn trap_mode(&self) -> (mode: Option<TrapMode>)
        ensures
            mode == mode_of(self.spec_bits()),
    {
        mtvec_trap_mode(self.raw)
    }

    /// Compares what was read back with the request for vectored dispatch
    /// at `wanted`.
    pub fn check(&self, wanted: usize) -> (check: TrapVectorCheck)
        ensures
            check.addr_okay == (address_of(self.spec_bits()) == wanted),
            check.mode_okay == (mode_of(self.spec_bits()) == Some(TrapMode::Vectored)),
    {
        let addr_okay = self.address() == wanted;
        let mode_okay = match self.trap_mode() {
            Some(TrapMode::Vectored) => true,
            _ => false,
        };
        TrapVectorCheck { addr_okay, mode_okay }
    }
}

/// `Mtvec::address` of the `riscv` crate, on a register built from `bits`:
/// the value with its two low bits cleared.
#[verifier::external_body]
fn mtvec_address(bits: usize) -> (address: usize)
    ensures
        address == address_of(bits),
{
    riscv::register::mtvec::Mtvec::from_bits(bits).address()
}

/// `Mtvec::try_trap_mode` of the `riscv` crate, on a register built from
/// `bits`. The two low bits are read as a number: 0 is direct, 1 is
/// vectored, and anything else is an error, given here as `None`.
#[verifier::external_body]
fn mtvec_trap_mode(bits: usize) -> (mode: Option<TrapMode>)
    ensures
        mode == mode_of(bits),
{
    match riscv::register::mtvec::Mtvec::from_bits(bits).try_trap_mode() {
        Ok(riscv::register::mtvec::TrapMode::Direct) => Some(TrapMode::Direct),
        Ok(riscv::register::mtvec::TrapMode::Vectored) => Some(TrapMode::Vectored),
        Err(_) => None,
    }
}

/// `Mtvec::try_new` of the `riscv` crate, followed by `bits`. An address
/// with one of its two low bits set is an error, given here as `None`;
/// otherwise the value is the address with the mode's code in the two low
/// bits.
#[verifier::external_body]
fn mtvec_try_new(address: usize, mode: TrapMode) -> (bits: Option<usize>)
    ensures
        bits == value_for(address, mode),
{
    let outside = match mode {
        TrapMode::Direct => riscv::register::mtvec::TrapMode::Direct,
        TrapMode::Vectored => riscv::register::mtvec::TrapMode::Vectored,
    };
    match riscv::register::mtvec::Mtvec::try_new(address, outside) {
        Ok(value) => Some(value.bits()),
        Err(_) => None,
    }
}

} // verus!
