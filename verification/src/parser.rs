//! Finding command requests in document blocks.
//!
//! A command is a paragraph or to-do block whose text, once trimmed, has the
//! shape `!(command)`; a block whose children already carry the execution
//! marker has been handled before. Block JSON is navigated through the
//! trusted wrappers of `json`; the text rules themselves are verified
//! against `command_of_text`.

use vstd::prelude::*;
use crate::json::{json_as_array, json_as_str, json_get};
use crate::model::CommandTask;
use crate::text::{contains_str, str_eq, trim_chars, trim_spec};

verus! {

/// The marker appended to a block's children once its command has run.
pub const EXEC_MARKER: &'static str = "notionSSH-executed";

/// The command a block's text requests: the text, once trimmed, must be
/// `!(` ... `)` with a non-empty single-line interior, which is trimmed in
/// turn. Anything else requests nothing.
pub open spec fn command_of_text(text: Seq<char>) -> Option<Seq<char>> {
    let t = trim_spec(text);
    if t.len() >= 4 && t[0] == '!' && t[1] == '(' && t[t.len() - 1] == ')' && (forall|k: int|
        2 <= k < t.len() - 1 ==> t[k] != '\n')
    {
        Some(trim_spec(t.subrange(2, t.len() - 1)))
    } else {
        None
    }
}

/// Parse one block text, verified against `command_of_text`.
pub fn parse_command_text(text: &str) -> (r: Option<String>)
    ensures
        match r {
            Some(cmd) => command_of_text(text@) == Some(cmd@),
            None => command_of_text(text@) is None,
        },
{
    let t = trim_chars(text);
    let n = t.as_str().unicode_len();
    if n < 4 {
        return None;
    }
    if t.as_str().get_char(0) != '!' || t.as_str().get_char(1) != '(' || t.as_str().get_char(n - 1)
        != ')' {
        return None;
    }
    let mut k: usize = 2;
    while k < n - 1
        invariant
            2 <= k <= n - 1,
            n == t@.len(),
            n >= 4,
            t@ == trim_spec(text@),
            t@[0] == '!',
            t@[1] == '(',
            t@[n - 1] == ')',
            forall|m: int| 2 <= m < k ==> t@[m] != '\n',
        decreases n - k,
    {
        if t.as_str().get_char(k) == '\n' {
            return None;
        }
        k = k + 1;
    }
    let interior = t.as_str().substring_char(2, n - 1);
    Some(trim_chars(interior))
}

/// The concatenated text of a rich-text array: each element contributes its
/// `plain_text`, or failing that its `text.content`.
pub fn collect_rich_text(arr: &Vec<serde_json::Value>) -> (r: String) {
    let mut out = String::new();
    let mut i: usize = 0;
    while i < arr.len()
        decreases arr@.len() - i,
    {
        let piece: Option<&str> = match json_get(&arr[i], "plain_text") {
            Some(v) => json_as_str(v),
            None => None,
        };
        match piece {
            Some(t) => {
                out.append(t);
            },
            None => {
                match json_get(&arr[i], "text") {
                    Some(txt) => match json_get(txt, "content") {
                        Some(c) => match json_as_str(c) {
                            Some(t) => {
                                out.append(t);
                            },
                            None => {},
                        },
                        None => {},
                    },
                    None => {},
                }
            },
        }
        i = i + 1;
    }
    out
}

/// Find the command a block requests, if any: the block must be a paragraph
/// or to-do, and its rich text must parse under `command_of_text`. The block
/// id is required; creation time and requester id are carried along when
/// present. The block JSON is opaque here — the text rules are verified in
/// `parse_command_text`.
pub fn parse_command_from_block(block: &serde_json::Value) -> (r: Option<CommandTask>) {
    let obj_type = match json_get(block, "type") {
        Some(v) => match json_as_str(v) {
            Some(s) => s,
            None => {
                return None;
            },
        },
        None => {
            return None;
        },
    };
    if !str_eq(obj_type, "paragraph") && !str_eq(obj_type, "to_do") {
        return None;
    }
    let rich = match json_get(block, obj_type) {
        Some(section) => match json_get(section, "rich_text") {
            Some(rt) => match json_as_array(rt) {
                Some(a) => a,
                None => {
                    return None;
                },
            },
            None => {
                return None;
            },
        },
        None => {
            return None;
        },
    };
    let text = collect_rich_text(rich);
    let command = match parse_command_text(text.as_str()) {
        Some(c) => c,
        None => {
            return None;
        },
    };
    let block_id = match json_get(block, "id") {
        Some(v) => match json_as_str(v) {
            Some(s) => s.to_owned(),
            None => {
                return None;
            },
        },
        None => {
            return None;
        },
    };
    let created_time = match json_get(block, "created_time") {
        Some(v) => match json_as_str(v) {
            Some(s) => s.to_owned(),
            None => String::new(),
        },
        None => String::new(),
    };
    let created_by_id = match json_get(block, "created_by") {
        Some(v) => match json_get(v, "id") {
            Some(idv) => match json_as_str(idv) {
                Some(s) => Some(s.to_owned()),
                None => None,
            },
            None => None,
        },
        None => None,
    };
    Some(CommandTask { block_id, command, created_time, created_by_id })
}

/// Whether any code block among `children` carries the execution marker in
/// its rich text.
pub fn children_contains_marker(children: &Vec<serde_json::Value>) -> (r: bool) {
    let mut i: usize = 0;
    while i < children.len()
        decreases children@.len() - i,
    {
        let is_code = match json_get(&children[i], "type") {
            Some(v) => match json_as_str(v) {
                Some(s) => str_eq(s, "code"),
                None => false,
            },
            None => false,
        };
        if is_code {
            match json_get(&children[i], "code") {
                Some(code) => match json_get(code, "rich_text") {
                    Some(rt) => match json_as_array(rt) {
                        Some(arr) => {
                            let text = collect_rich_text(arr);
                            if contains_str(text.as_str(), EXEC_MARKER) {
                                return true;
                            }
                        },
                        None => {},
                    },
                    None => {},
                },
                None => {},
            }
        }
        i = i + 1;
    }
    false
}

} // verus!
