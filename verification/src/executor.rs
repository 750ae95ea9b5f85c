//! The pure part of command execution: combining a run's standard output
//! and standard error into one report. Spawning the shell, capturing the
//! streams and the byte-level truncation of oversized reports stay with the
//! caller.

use vstd::prelude::*;

verus! {

/// The combined report of one run: both streams when both spoke, separated
/// by a newline; just the one otherwise.
pub open spec fn combined_output(out: Seq<char>, err: Seq<char>) -> Seq<char> {
    if out.len() > 0 && err.len() > 0 {
        out + "\n"@ + err
    } else {
        out + err
    }
}

/// Combine the two streams of a finished command, verified against
/// `combined_output`.
pub fn combine_output(stdout: &str, stderr: &str) -> (r: String)
    ensures
        r@ == combined_output(stdout@, stderr@),
{
    let mut out = String::new();
    if !stdout.is_empty() {
        out.append(stdout);
    }
    if !stderr.is_empty() {
        if !stdout.is_empty() {
            out.append("\n");
        }
        out.append(stderr);
    }
    proof {
        assert(out@ =~= combined_output(stdout@, stderr@));
    }
    out
}

} // verus!
