//! The exact texts of the two log files: the daily command log and the
//! flat audit log. The caller samples the clock and appends the lines to
//! disk; every formatting rule is verified here.

use vstd::prelude::*;

verus! {

/// The decimal digits of `n`, most significant first.
pub open spec fn dec_spec(n: nat) -> Seq<char>
    decreases n,
{
    if n < 10 {
        seq![crate::fingerprint::hex_digit(n as u8)]
    } else {
        dec_spec(n / 10) + seq![crate::fingerprint::hex_digit((n % 10) as u8)]
    }
}

/// Decimal rendering of a number, verified against `dec_spec`.
pub fn u32_to_dec(n: u32) -> (r: String)
    ensures
        r@ == dec_spec(n as nat),
    decreases n,
{
    if n < 10 {
        let mut out = String::new();
        out.push(crate::fingerprint::hex_digit_exec((n % 10) as u8));
        proof {
            assert(out@ =~= dec_spec(n as nat));
        }
        out
    } else {
        let mut out = u32_to_dec(n / 10);
        out.push(crate::fingerprint::hex_digit_exec((n % 10) as u8));
        proof {
            assert(dec_spec((n / 10) as nat).push(crate::fingerprint::hex_digit((n % 10) as u8))
                =~= dec_spec(n as nat));
        }
        out
    }
}

/// `k` zero characters.
pub open spec fn zeros(k: int) -> Seq<char>
    decreases k,
{
    if k <= 0 {
        Seq::empty()
    } else {
        zeros(k - 1) + seq!['0']
    }
}

/// `n` in decimal, left-padded with zeros to at least `width` characters
/// (what `{:0width$}` formatting yields for unsigned values).
pub open spec fn padded_dec(n: nat, width: int) -> Seq<char> {
    let d = dec_spec(n);
    if d.len() >= width {
        d
    } else {
        zeros(width - d.len()) + d
    }
}

/// Zero-padded decimal rendering, verified against `padded_dec`.
pub fn pad_dec(n: u32, width: usize) -> (r: String)
    ensures
        r@ == padded_dec(n as nat, width as int),
{
    let digits = u32_to_dec(n);
    let len = digits.as_str().unicode_len();
    if len >= width {
        return digits;
    }
    let mut out = String::new();
    let mut k: usize = 0;
    while k < width - len
        invariant
            0 <= k <= width - len,
            len == dec_spec(n as nat).len(),
            len < width,
            out@ == zeros(k as int),
        decreases width - len - k,
    {
        out.push('0');
        proof {
            assert(zeros(k as int).push('0') =~= zeros(k + 1 as int));
        }
        k = k + 1;
    }
    out.append(digits.as_str());
    out
}

/// The bracketed timestamp that opens a command-log line:
/// `[yyyy-mm-dd:HH:MM:fffff]`, where the last field is the first five digits
/// of the fractional second.
pub open spec fn bracket_timestamp_spec(
    year: nat,
    month: nat,
    day: nat,
    hour: nat,
    minute: nat,
    nanosecond: nat,
) -> Seq<char> {
    "["@ + padded_dec(year, 4) + "-"@ + padded_dec(month, 2) + "-"@ + padded_dec(day, 2) + ":"@
        + padded_dec(hour, 2) + ":"@ + padded_dec(minute, 2) + ":"@ + padded_dec(
        nanosecond / 10000,
        5,
    ) + "]"@
}

/// Format the bracketed timestamp from a sampled clock, verified against
/// `bracket_timestamp_spec`.
pub fn format_bracket_timestamp(
    year: u32,
    month: u32,
    day: u32,
    hour: u32,
    minute: u32,
    nanosecond: u32,
) -> (r: String)
    ensures
        r@ == bracket_timestamp_spec(
            year as nat,
            month as nat,
            day as nat,
            hour as nat,
            minute as nat,
            nanosecond as nat,
        ),
{
    let mut out = String::new();
    out.append("[");
    out.append(pad_dec(year, 4).as_str());
    out.append("-");
    out.append(pad_dec(month, 2).as_str());
    out.append("-");
    out.append(pad_dec(day, 2).as_str());
    out.append(":");
    out.append(pad_dec(hour, 2).as_str());
    out.append(":");
    out.append(pad_dec(minute, 2).as_str());
    out.append(":");
    out.append(pad_dec(nanosecond / 10000, 5).as_str());
    out.append("]");
    proof {
        assert(out@ =~= bracket_timestamp_spec(
            year as nat,
            month as nat,
            day as nat,
            hour as nat,
            minute as nat,
            nanosecond as nat,
        ));
    }
    out
}

/// The name of the day's command log: `command.yyyymmdd.log`.
pub open spec fn command_log_filename_spec(year: nat, month: nat, day: nat) -> Seq<char> {
    "command."@ + padded_dec(year, 4) + padded_dec(month, 2) + padded_dec(day, 2) + ".log"@
}

/// Format the day's command-log file name, verified against
/// `command_log_filename_spec`.
pub fn command_log_filename(year: u32, month: u32, day: u32) -> (r: String)
    ensures
        r@ == command_log_filename_spec(year as nat, month as nat, day as nat),
{
    let mut out = String::new();
    out.append("command.");
    out.append(pad_dec(year, 4).as_str());
    out.append(pad_dec(month, 2).as_str());
    out.append(pad_dec(day, 2).as_str());
    out.append(".log");
    proof {
        assert(out@ =~= command_log_filename_spec(year as nat, month as nat, day as nat));
    }
    out
}

/// One command-log line: the timestamp, the requester in braces, and the
/// command.
pub open spec fn command_log_line_spec(ts: Seq<char>, email: Seq<char>, command: Seq<char>) -> Seq<
    char,
> {
    ts + " {"@ + email + "} : "@ + command + "\n"@
}

/// Format one command-log line, verified against `command_log_line_spec`.
pub fn command_log_line(ts: &str, email: &str, command: &str) -> (r: String)
    ensures
        r@ == command_log_line_spec(ts@, email@, command@),
{
    let mut out = String::new();
    out.append(ts);
    out.append(" {");
    out.append(email);
    out.append("} : ");
    out.append(command);
    out.append("\n");
    proof {
        assert(out@ =~= command_log_line_spec(ts@, email@, command@));
    }
    out
}

/// One audit-log line: command, requester, request time, node and status,
/// comma-separated.
pub open spec fn audit_log_line_spec(
    command: Seq<char>,
    requester: Seq<char>,
    req_time_iso: Seq<char>,
    node: Seq<char>,
    status: Seq<char>,
) -> Seq<char> {
    command + " , "@ + requester + " , "@ + req_time_iso + " , "@ + node + " , "@ + status + "\n"@
}

/// Format one audit-log line, verified against `audit_log_line_spec`.
pub fn audit_log_line(
    command: &str,
    requester: &str,
    req_time_iso: &str,
    node: &str,
    status: &str,
) -> (r: String)
    ensures
        r@ == audit_log_line_spec(command@, requester@, req_time_iso@, node@, status@),
{
    let mut out = String::new();
    out.append(command);
    out.append(" , ");
    out.append(requester);
    out.append(" , ");
    out.append(req_time_iso);
    out.append(" , ");
    out.append(node);
    out.append(" , ");
    out.append(status);
    out.append("\n");
    proof {
        assert(out@ =~= audit_log_line_spec(command@, requester@, req_time_iso@, node@, status@));
    }
    out
}

} // verus!
