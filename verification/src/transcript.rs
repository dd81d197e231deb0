use vstd::prelude::*;

use crate::interpreter::append_bytes;

verus! {

/// What `strip_ansi_escapes::strip` leaves of a byte sequence: the bytes with
/// every ANSI escape sequence removed. The exact definition is that crate's
/// terminal-control state machine; this name stands for its result, which is a
/// function of the input bytes alone.
pub uninterp spec fn strip_ansi_of(bytes: Seq<u8>) -> Seq<u8>;

/// Relies on strip_ansi_escapes::strip: strips ANSI escape sequences out of
/// the bytes, deterministically; given no bytes it produces no bytes.
#[verifier::external_body]
fn strip_ansi(bytes: &Vec<u8>) -> (r: Vec<u8>)
    ensures
        r@ == strip_ansi_of(bytes@),
        bytes@.len() == 0 ==> r@.len() == 0,
{
    strip_ansi_escapes::strip(bytes)
}

/// The transcript of one test run: the captured standard output and then the
/// captured standard error, each with terminal escape sequences stripped, so
/// that transcripts compare stably whether or not the run wrote color codes.
pub fn clean_transcript(stdout: &Vec<u8>, stderr: &Vec<u8>) -> (r: Vec<u8>)
    ensures
        r@ == strip_ansi_of(stdout@) + strip_ansi_of(stderr@),
{
    let mut bytes = strip_ansi(stdout);
    let tail = strip_ansi(stderr);
    append_bytes(&mut bytes, &tail);
    bytes
}

} // verus!
