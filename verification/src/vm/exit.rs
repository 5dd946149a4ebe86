//! How a machine ended.

use vstd::prelude::*;

verus! {

/// The signal part of a wait status.
pub open spec fn signal_part(status: i32) -> i32 {
    status & 0x7f
}

/// The exit code part of a wait status.
pub open spec fn code_part(status: i32) -> i32 {
    (status >> 8) & 0xff
}

/// `libc::WIFEXITED`: whether a wait status tells of a normal exit, which is where
/// its lower seven bits are zero.
pub assume_specification[ libc::WIFEXITED ](status: libc::c_int) -> (r: bool)
    ensures
        r == (signal_part(status) == 0),
;

/// `libc::WEXITSTATUS`: the exit code, held by the eight bits above the lowest eight.
pub assume_specification[ libc::WEXITSTATUS ](status: libc::c_int) -> (r: libc::c_int)
    ensures
        r == code_part(status),
;

/// `libc::WIFSIGNALED`: whether a wait status tells of an end by a signal, which is
/// where its lower seven bits are neither all zero nor all one.
pub assume_specification[ libc::WIFSIGNALED ](status: libc::c_int) -> (r: bool)
    ensures
        r == (1 <= signal_part(status) && signal_part(status) <= 126),
;

/// `libc::WTERMSIG`: the signal, held by the lower seven bits.
pub assume_specification[ libc::WTERMSIG ](status: libc::c_int) -> (r: libc::c_int)
    ensures
        r == signal_part(status),
;

/// The exit code that is reported for a wait status: that of the machine, or 128
/// more than the signal that ended it, as a shell reports it.
pub open spec fn exit_code(status: i32) -> int {
    if signal_part(status) == 0 {
        code_part(status) as int
    } else if signal_part(status) <= 126 {
        128 + signal_part(status)
    } else {
        status as int
    }
}

proof fn lemma_parts(status: i32)
    ensures
        0 <= signal_part(status) <= 127,
        0 <= code_part(status) <= 255,
{
    assert(0 <= status & 0x7f && status & 0x7f <= 127) by (bit_vector);
    assert(0 <= (status >> 8) & 0xff && (status >> 8) & 0xff <= 255) by (bit_vector);
}

/// A normal exit is reported as a code up to 255, and an end by a signal as a code
/// from 129 to 254.
pub proof fn law_exit_codes(status: i32)
    ensures
        signal_part(status) == 0 ==> 0 <= exit_code(status) <= 255,
        1 <= signal_part(status) <= 126 ==> 129 <= exit_code(status) <= 254,
{
    lemma_parts(status);
}

/// How an end is told: a machine that exits by itself has its code in the second byte of
/// the wait status, and that code is reported; one that a signal ends has the signal in
/// the lower seven bits, with the eighth for a dump of its memory, and 128 more than the
/// signal is reported.
pub proof fn law_end_is_reported(code: i32, signal: i32, dumped: bool)
    requires
        0 <= code <= 255,
        1 <= signal <= 126,
    ensures
        exit_code((256 * code) as i32) == code,
        exit_code(
            if dumped {
                (signal + 128) as i32
            } else {
                signal
            },
        ) == 128 + signal,
{
    let status = (256 * code) as i32;
    assert(status & 0x7f == 0 && (status >> 8) & 0xff == code) by (bit_vector)
        requires
            status == 256 * code,
            0 <= code <= 255,
    ;
    let marked = (signal + 128) as i32;
    assert(marked & 0x7f == signal && signal & 0x7f == signal) by (bit_vector)
        requires
            marked == signal + 128,
            1 <= signal <= 126,
    ;
}

/// Whatever the wait status, what is reported of it is a machine integer, and a status that
/// tells of neither end is reported as it is.
pub proof fn law_exit_code_fits(status: i32)
    ensures
        i32::MIN <= exit_code(status) <= i32::MAX,
        status % 128 == 127 ==> exit_code(status) == status,
{
    lemma_parts(status);
    if status % 128 == 127 {
        assert(status & 0x7f == 127) by (bit_vector)
            requires
                status % 128 == 127,
        ;
    }
}

/// The exit code that is reported for a wait status.
pub fn decode_wait_status(status: i32) -> (r: i32)
    ensures
        r == exit_code(status),
{
    proof {
        lemma_parts(status);
    }
    if libc::WIFEXITED(status) {
        libc::WEXITSTATUS(status)
    } else if libc::WIFSIGNALED(status) {
        let signal: i32 = libc::WTERMSIG(status);
        128 + signal
    } else {
        status
    }
}

} // verus!
