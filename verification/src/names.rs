//! The texts that the C library has for error numbers and signals: read out of
//! the buffer that the C library filled, and written out one to a line.
use vstd::prelude::*;
use vstd::slice::slice_subrange;
use crate::decimal::{push_signed_decimal, signed_decimal};
use crate::decode::{from_utf8_lossy, lossy_text};
use crate::text::{starts_with, str_starts_with};

verus! {

/// The C string in `buf` ends at `len`: no byte before `len` is zero, and the
/// byte at `len` is zero unless the buffer ends there.
pub open spec fn ends_c_string(buf: Seq<u8>, len: int) -> bool {
    &&& 0 <= len <= buf.len()
    &&& forall|at: int| 0 <= at < len ==> buf[at] != 0
    &&& len < buf.len() ==> buf[len] == 0
}

/// The length of the C string in `buf`.
pub open spec fn c_string_len(buf: Seq<u8>) -> int {
    choose|len: int| ends_c_string(buf, len)
}

/// The C string in `buf`: the bytes before the first zero byte, or all of them
/// where none is zero.
pub open spec fn c_string(buf: Seq<u8>) -> Seq<u8> {
    buf.take(c_string_len(buf))
}

/// A C string ends in one place only.
pub proof fn lemma_c_string_len_unique(buf: Seq<u8>, len: int)
    requires
        ends_c_string(buf, len),
    ensures
        c_string_len(buf) == len,
{
    let chosen = c_string_len(buf);
    assert(ends_c_string(buf, chosen));
    if chosen < len {
        assert(buf[chosen] != 0);
    }
    if len < chosen {
        assert(buf[len] != 0);
    }
}

/// Measures the C string in `buf`.
pub fn measure_c_string(buf: &[u8]) -> (len: usize)
    ensures
        ends_c_string(buf@, len as int),
        len == c_string_len(buf@),
{
    let mut len: usize = 0;
    while len < buf.len() && buf[len] != 0
        invariant
            len <= buf@.len(),
            forall|at: int| 0 <= at < len ==> buf@[at] != 0,
        decreases buf@.len() - len,
    {
        len += 1;
    }
    proof {
        lemma_c_string_len_unique(buf@, len as int);
    }
    len
}

/// The message that the C library wrote into `buf` for an error number, given
/// the code `rc` that it returned: there is none unless `rc` is zero, and else
/// it is the C string in `buf`, decoded permissively.
pub fn error_message(rc: i32, buf: &[u8]) -> (message: Option<String>)
    ensures
        match message {
            Some(text) => rc == 0 && text@ == lossy_text(c_string(buf@)),
            None => rc != 0,
        },
{
    if rc != 0 {
        return None;
    }
    let len = measure_c_string(buf);
    let bytes = slice_subrange(buf, 0, len);
    assert(bytes@ =~= c_string(buf@));
    Some(from_utf8_lossy(bytes).to_owned())
}

/// What the name of a signal begins with where the C library knows no such
/// signal.
pub open spec fn unknown_signal_mark() -> Seq<char> {
    "Unknown signal "@
}

/// Whether `name` names no signal: the C library's text for a number that is
/// no signal begins with the mark of an unknown signal.
pub fn is_unknown_signal(name: &str) -> (unknown: bool)
    ensures
        unknown == starts_with(name@, unknown_signal_mark()),
{
    str_starts_with(name, "Unknown signal ")
}

/// The line that lists an error number with its message.
pub open spec fn errno_line(errno: int, message: Seq<char>) -> Seq<char> {
    signed_decimal(errno) + ": "@ + message
}

/// The line that lists a signal with its name.
pub open spec fn signal_line(signum: int, name: Seq<char>) -> Seq<char> {
    "signal "@ + signed_decimal(signum) + ": "@ + name
}

/// Writes the line that lists an error number with its message.
pub fn write_errno_line(errno: i32, message: &str) -> (line: String)
    ensures
        line@ == errno_line(errno as int, message@),
{
    let mut line = String::new();
    push_signed_decimal(&mut line, errno);
    line.append(": ");
    line.append(message);
    assert(line@ =~= errno_line(errno as int, message@));
    line
}

/// Writes the line that lists a signal with its name, or nothing where the
/// name is that of an unknown signal.
pub fn write_signal_line(signum: i32, name: &str) -> (line: Option<String>)
    ensures
        match line {
            Some(text) => !starts_with(name@, unknown_signal_mark()) && text@ == signal_line(
                signum as int,
                name@,
            ),
            None => starts_with(name@, unknown_signal_mark()),
        },
{
    if is_unknown_signal(name) {
        return None;
    }
    let mut line = String::new();
    line.append("signal ");
    push_signed_decimal(&mut line, signum);
    line.append(": ");
    line.append(name);
    assert(line@ =~= signal_line(signum as int, name@));
    Some(line)
}

} // verus!
