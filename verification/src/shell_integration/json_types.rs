//! The structured data that OSC sequences can carry as JSON: metadata of a
//! block, of a command, of its output, and a command's result.
use vstd::prelude::*;

use std::collections::HashMap;

use crate::text::str_equal;

verus! {

/// Metadata of a block.
#[derive(Debug, Clone, PartialEq)]
pub struct BlockMetadata {
    /// The block's identifier.
    pub block_id: String,
    /// When the block started (ISO 8601).
    pub start_time: Option<String>,
    /// The working directory.
    pub cwd: Option<String>,
    /// Environment variables.
    pub env: Option<HashMap<String, String>>,
    /// The user name.
    pub user: Option<String>,
    /// The host name.
    pub hostname: Option<String>,
}

/// Metadata of a command.
#[derive(Debug, Clone, PartialEq)]
pub struct CommandMetadata {
    /// The block the command belongs to.
    pub block_id: String,
    /// The command as parsed.
    pub command: String,
    /// Its arguments.
    pub args: Option<Vec<String>>,
    /// The input as typed.
    pub raw_input: Option<String>,
    /// When it was issued.
    pub timestamp: Option<String>,
}

/// Metadata of a command's output.
#[derive(Debug, Clone, PartialEq)]
pub struct OutputMetadata {
    /// The block the output belongs to.
    pub block_id: String,
    /// The stream it came on.
    pub stream: Option<String>,
    /// Its number of lines.
    pub line_count: Option<u32>,
    /// Its number of bytes.
    pub byte_count: Option<u64>,
    /// Its format.
    pub format: Option<String>,
    /// Its encoding.
    pub encoding: Option<String>,
}

/// The result of a command.
#[derive(Debug, Clone, PartialEq)]
pub struct CommandResult {
    /// The block the command belongs to.
    pub block_id: String,
    /// Its exit code.
    pub exit_code: i32,
    /// When it ended (ISO 8601).
    pub end_time: Option<String>,
    /// How long it ran, in milliseconds.
    pub duration_ms: Option<u64>,
    /// The signal that ended it.
    pub signal: Option<i32>,
    /// An error message.
    pub error: Option<String>,
}

/// The kind of JSON data a sequence carries.
#[derive(Debug, Clone, Copy, PartialEq, Eq, Structural)]
pub enum JsonDataType {
    /// Block metadata.
    BlockMeta,
    /// Command metadata.
    CommandMeta,
    /// Output metadata.
    OutputMeta,
    /// Anything else.
    Custom,
}

/// The name of a kind of JSON data.
pub open spec fn json_type_name(t: JsonDataType) -> Seq<char> {
    match t {
        JsonDataType::BlockMeta => "block_meta"@,
        JsonDataType::CommandMeta => "command_meta"@,
        JsonDataType::OutputMeta => "output_meta"@,
        JsonDataType::Custom => "custom"@,
    }
}

impl JsonDataType {
    /// The kind with the given name.
    pub fn from_str(s: &str) -> (r: Option<JsonDataType>)
        ensures
            r matches Some(t) ==> json_type_name(t) == s@,
            r is None ==> forall|t: JsonDataType| json_type_name(t) != s@,
    {
        proof {
            reveal_strlit("block_meta");
            reveal_strlit("command_meta");
            reveal_strlit("output_meta");
            reveal_strlit("custom");
        }
        if str_equal(s, "block_meta") {
            Some(JsonDataType::BlockMeta)
        } else if str_equal(s, "command_meta") {
            Some(JsonDataType::CommandMeta)
        } else if str_equal(s, "output_meta") {
            Some(JsonDataType::OutputMeta)
        } else if str_equal(s, "custom") {
            Some(JsonDataType::Custom)
        } else {
            None
        }
    }

    /// The name of the kind.
    pub fn as_str(&self) -> (s: &'static str)
        ensures
            s@ == json_type_name(*self),
    {
        match self {
            JsonDataType::BlockMeta => "block_meta",
            JsonDataType::CommandMeta => "command_meta",
            JsonDataType::OutputMeta => "output_meta",
            JsonDataType::Custom => "custom",
        }
    }
}

/// Reading a kind back from its name gives the kind.
pub proof fn lemma_json_type_names_distinct(a: JsonDataType, b: JsonDataType)
    ensures
        json_type_name(a) == json_type_name(b) ==> a == b,
{
    reveal_strlit("block_meta");
    reveal_strlit("command_meta");
    reveal_strlit("output_meta");
    reveal_strlit("custom");
    if json_type_name(a) == json_type_name(b) && a != b {
        assert(json_type_name(a).len() != json_type_name(b).len() || json_type_name(a)[0] != json_type_name(b)[0]);
    }
}

} // verus!
