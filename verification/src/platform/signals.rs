//! Signals and their numbers on Unix.
use vstd::prelude::*;
use crate::domain::spec::Signal;
use crate::supervision::error::TerminateError;

verus! {

/// The largest number of a classic signal.
pub const LAST_SIGNAL: i32 = 31;

/// Reads the constant `libc::SIGTERM`: it is 15 on every Unix target.
#[verifier::external_body]
fn term_number() -> (number: i32)
    ensures
        number == 15,
{
    libc::SIGTERM
}

/// Reads the constant `libc::SIGKILL`: it is 9 on every Unix target.
#[verifier::external_body]
fn kill_number() -> (number: i32)
    ensures
        number == 9,
{
    libc::SIGKILL
}

/// Reads the constant `libc::SIGINT`: it is 2 on every Unix target.
#[verifier::external_body]
fn interrupt_number() -> (number: i32)
    ensures
        number == 2,
{
    libc::SIGINT
}

/// Asks `<nix::sys::signal::Signal as TryFrom<i32>>::try_from` whether a number names a
/// signal.
///
/// It accepts the classic signals, which on x86-64 and ARM Linux and on macOS are the numbers
/// from 1 to 31 without a gap, and the signal it gives has the number that it was asked for.
/// Every other number is refused with `Errno::EINVAL`, whose message is the one stated.
#[verifier::external_body]
fn checked_signal(raw: i32) -> (number: Result<i32, String>)
    ensures
        match number {
            Ok(accepted) => accepted == raw && 1 <= raw <= LAST_SIGNAL,
            Err(cause) => !(1 <= raw <= LAST_SIGNAL) && cause@ == "EINVAL: Invalid argument"@,
        },
{
    match nix::sys::signal::Signal::try_from(raw) {
        Ok(signal) => Ok(signal as i32),
        Err(error) => Err(error.to_string()),
    }
}

/// The number under which a signal is sent, if it can be sent.
pub open spec fn signal_number(signal: Signal) -> Option<i32> {
    match signal {
        Signal::Term => Some(15),
        Signal::Kill => Some(9),
        Signal::Interrupt => Some(2),
        Signal::Custom(raw) => if 1 <= raw <= LAST_SIGNAL {
            Some(raw)
        } else {
            None
        },
    }
}

/// The signal that a number reported by the kernel stands for.
pub open spec fn named_signal(raw: i32) -> Signal {
    if raw == 15 {
        Signal::Term
    } else if raw == 9 {
        Signal::Kill
    } else if raw == 2 {
        Signal::Interrupt
    } else {
        Signal::Custom(raw)
    }
}

/// The number under which `signal` is sent.
///
/// # Errors
/// Returns [`TerminateError::Signal`] for a raw number that names no signal.
pub fn to_nix(signal: Signal) -> (number: Result<i32, TerminateError>)
    ensures
        match number {
            Ok(accepted) => signal_number(signal) == Some(accepted),
            Err(TerminateError::Signal(cause)) => signal_number(signal) is None && cause@
                == "EINVAL: Invalid argument"@,
            Err(_) => false,
        },
{
    match signal {
        Signal::Term => Ok(term_number()),
        Signal::Kill => Ok(kill_number()),
        Signal::Interrupt => Ok(interrupt_number()),
        Signal::Custom(raw) => match checked_signal(raw) {
            Ok(number) => Ok(number),
            Err(cause) => Err(TerminateError::Signal(cause)),
        },
    }
}

/// The signal that ended a process, from the number the kernel reports.
#[must_use]
pub fn signal_from_raw(raw: i32) -> (signal: Signal)
    ensures
        signal == named_signal(raw),
{
    if raw == term_number() {
        Signal::Term
    } else if raw == kill_number() {
        Signal::Kill
    } else if raw == interrupt_number() {
        Signal::Interrupt
    } else {
        Signal::Custom(raw)
    }
}

/// A number read back as a signal is sent under that same number, if it can be sent at all.
pub proof fn signal_numbers_round_trip(raw: i32)
    requires
        1 <= raw <= LAST_SIGNAL,
    ensures
        signal_number(named_signal(raw)) == Some(raw),
{
}

/// A named signal keeps its name when it is sent and then reported back.
pub proof fn named_signals_keep_their_name(signal: Signal)
    requires
        signal !is Custom,
    ensures
        signal_number(signal) is Some,
        named_signal(signal_number(signal)->0) == signal,
{
}

} // verus!
