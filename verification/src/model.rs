//! Plain data shared between the document-polling caller and the parser.

use vstd::prelude::*;

verus! {

/// One command found in a document block, with where and by whom it was
/// requested.
#[derive(Debug, Clone)]
pub struct CommandTask {
    pub block_id: String,
    pub command: String,
    pub created_time: String,
    pub created_by_id: Option<String>,
}

} // verus!
