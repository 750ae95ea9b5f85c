//! The texts the document-API caller posts back after running a command:
//! the code-block body carrying the output and the execution marker, and the
//! metadata paragraph. Wrapping them into API payloads and sending them is
//! the caller's; the texts are verified here.

use vstd::prelude::*;
use crate::parser::EXEC_MARKER;

verus! {

/// The API version header value the caller sends.
pub const NOTION_VERSION: &'static str = "2022-06-28";

/// The marker a status paragraph carries.
pub const STATUS_MARKER: &'static str = "notionSSH-status";

/// The code-block body reporting one run: the command line, its output, and
/// a footer naming requester, node, time and the execution marker.
pub open spec fn result_body_spec(
    cmd: Seq<char>,
    output: Seq<char>,
    email: Seq<char>,
    machine: Seq<char>,
    now: Seq<char>,
) -> Seq<char> {
    "$ "@ + cmd + "\n"@ + output + "\n---\nexecuted_by="@ + email + " | node="@ + machine + " | "@
        + now + "\n# "@ + EXEC_MARKER@
}

/// Format the code-block body of a result, verified against
/// `result_body_spec`.
pub fn result_body(cmd: &str, output: &str, email: &str, machine: &str, now: &str) -> (r: String)
    ensures
        r@ == result_body_spec(cmd@, output@, email@, machine@, now@),
{
    let mut out = String::new();
    out.append("$ ");
    out.append(cmd);
    out.append("\n");
    out.append(output);
    out.append("\n---\nexecuted_by=");
    out.append(email);
    out.append(" | node=");
    out.append(machine);
    out.append(" | ");
    out.append(now);
    out.append("\n# ");
    out.append(EXEC_MARKER);
    proof {
        assert(out@ =~= result_body_spec(cmd@, output@, email@, machine@, now@));
    }
    out
}

/// The metadata paragraph below a result: requester and node.
pub open spec fn result_meta_spec(email: Seq<char>, machine: Seq<char>) -> Seq<char> {
    "email: "@ + email + " | machine: "@ + machine
}

/// Format the metadata paragraph, verified against `result_meta_spec`.
pub fn result_meta(email: &str, machine: &str) -> (r: String)
    ensures
        r@ == result_meta_spec(email@, machine@),
{
    let mut out = String::new();
    out.append("email: ");
    out.append(email);
    out.append(" | machine: ");
    out.append(machine);
    proof {
        assert(out@ =~= result_meta_spec(email@, machine@));
    }
    out
}

} // verus!
