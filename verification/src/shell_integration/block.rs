//! Command blocks: each prompt of the shell opens a block that follows the
//! command typed there through its run to its end, driven by the OSC
//! sequences that the scanner finds.
use vstd::prelude::*;

use std::collections::HashMap;

use super::json_types::JsonDataType;
use super::scanner::{json_str_at, json_str_field, opt_chars, OscSequence};
use crate::text::{decimal, inserted_all, push_decimal, push_str, str_equal};
use vstd::std_specs::hash::obeys_key_model;
use vstd::string::StringSliceAdditionalSpecFns;
use vstd::utf8::encode_utf8;

verus! {

/// The Unix time in milliseconds now. It depends on the clock, so nothing
/// is stated of it; a clock set before 1970 reads as 0.
#[verifier::external_body]
fn current_timestamp_ms() -> u64 {
    match std::time::SystemTime::now().duration_since(std::time::UNIX_EPOCH) {
        Ok(d) => d.as_millis() as u64,
        Err(_) => 0,
    }
}

/// The string that a JSON value is, if it is one.
pub uninterp spec fn json_as_str(v: serde_json::Value) -> Option<Seq<char>>;

/// Makes the JSON string `s` (`serde_json::Value::String`), whose `as_str`
/// is `s`.
#[verifier::external_body]
fn json_string(s: String) -> (r: serde_json::Value)
    ensures
        json_as_str(r) == Some(s@),
{
    serde_json::Value::String(s)
}

/// The entries of a JSON object, key and value, in the order it iterates
/// them; `None` for anything else.
pub uninterp spec fn json_object_items(v: serde_json::Value) -> Option<Seq<(Seq<char>, serde_json::Value)>>;

/// Calls `serde_json::Value::as_object` and copies out its entries (keys
/// and values cloned) in the order it iterates them.
#[verifier::external_body]
fn json_object_entries(v: &serde_json::Value) -> (r: Option<Vec<(String, serde_json::Value)>>)
    ensures
        (match r {
            Some(es) => json_object_items(*v) == Some(
                es@.map_values(|e: (String, serde_json::Value)| (e.0@, e.1)),
            ),
            None => json_object_items(*v) is None,
        }),
{
    match v.as_object() {
        Some(o) => Some(o.iter().map(|(k, x)| (k.clone(), x.clone())).collect()),
        None => None,
    }
}

/// Where a block stands.
#[derive(Debug, Clone, Copy, PartialEq, Eq, Structural)]
pub enum BlockState {
    /// The prompt is shown.
    Prompt,
    /// The command is being typed.
    Input,
    /// The command runs.
    Executing,
    /// The command finished.
    Finished,
}

/// The stream an output came on.
#[derive(Debug, Clone, Copy, PartialEq, Eq, Structural)]
pub enum OutputStream {
    Stdout,
    Stderr,
}

/// A piece of a command's output.
#[derive(Debug, Clone)]
pub struct OutputBlock {
    /// The stream it came on.
    pub stream: OutputStream,
    /// Its text.
    pub content: String,
    /// The lines it covers, if known.
    pub line_range: Option<(usize, usize)>,
}

/// A command block.
#[derive(Debug)]
pub struct CommandBlock {
    /// The block's identifier.
    pub id: String,
    /// The prompt's text.
    pub prompt: String,
    /// The command.
    pub command: Option<String>,
    /// Its arguments.
    pub args: Vec<String>,
    /// The working directory.
    pub cwd: Option<String>,
    /// When the block was opened (Unix milliseconds).
    pub start_time: u64,
    /// When the command finished (Unix milliseconds).
    pub end_time: Option<u64>,
    /// How long the command ran, in milliseconds.
    pub duration_ms: Option<u64>,
    /// The exit code.
    pub exit_code: Option<i32>,
    /// Where the block stands.
    pub state: BlockState,
    /// The output, piece by piece.
    pub outputs: Vec<OutputBlock>,
    /// Further metadata.
    pub metadata: HashMap<String, serde_json::Value>,
}

/// Milliseconds from `start` to `end`, 0 where the clock went back.
pub open spec fn elapsed(start: u64, end: u64) -> u64 {
    if end >= start {
        (end - start) as u64
    } else {
        0
    }
}

/// The number of bytes of the outputs' texts.
pub open spec fn output_bytes(os: Seq<OutputBlock>) -> nat
    decreases os.len(),
{
    if os.len() == 0 {
        0
    } else {
        output_bytes(os.drop_last()) + encode_utf8(os.last().content@).len()
    }
}

/// The outputs' texts one after the other.
pub open spec fn output_text(os: Seq<OutputBlock>) -> Seq<char>
    decreases os.len(),
{
    if os.len() == 0 {
        Seq::empty()
    } else {
        output_text(os.drop_last()) + os.last().content@
    }
}

/// `b` is a block just opened with identifier `id` and working directory
/// `cwd`: empty prompt, no command, no output, in the prompt state.
pub open spec fn is_fresh_block(b: CommandBlock, id: Seq<char>, cwd: Option<Seq<char>>) -> bool {
    &&& b.id@ == id
    &&& b.prompt@.len() == 0
    &&& b.command is None
    &&& b.args@.len() == 0
    &&& opt_chars(b.cwd) == cwd
    &&& b.end_time is None
    &&& b.duration_ms is None
    &&& b.exit_code is None
    &&& b.state == BlockState::Prompt
    &&& b.outputs@.len() == 0
}

/// `a` and `b` agree on everything but the command, the working directory,
/// the times, the exit code, the state and the metadata.
pub open spec fn same_core(a: CommandBlock, b: CommandBlock) -> bool {
    &&& a.id == b.id
    &&& a.prompt == b.prompt
    &&& a.args == b.args
    &&& a.start_time == b.start_time
    &&& a.outputs == b.outputs
}

/// Whether `after` is `before` with an entry set: a key that reads `key`
/// holding the JSON string `text`.
pub open spec fn string_noted(
    before: Map<String, serde_json::Value>,
    after: Map<String, serde_json::Value>,
    key: Seq<char>,
    text: Seq<char>,
) -> bool {
    exists|k: String, v: serde_json::Value|
        #![trigger before.insert(k, v)]
        k@ == key && json_as_str(v) == Some(text) && after == before.insert(k, v)
}

/// `b` is `a` with only the state (and the metadata) changed, to `s`.
pub open spec fn state_set(a: CommandBlock, b: CommandBlock, s: BlockState) -> bool {
    &&& same_core(a, b)
    &&& b.command == a.command
    &&& b.cwd == a.cwd
    &&& b.end_time == a.end_time
    &&& b.duration_ms == a.duration_ms
    &&& b.exit_code == a.exit_code
    &&& b.state == s
}

impl CommandBlock {
    /// A block just opened, with identifier `id`, the clock's time as its
    /// start.
    pub fn new(id: String) -> (b: CommandBlock)
        ensures
            is_fresh_block(b, id@, None),
            b.id == id,
            b.metadata@ == Map::<String, serde_json::Value>::empty(),
    {
        CommandBlock {
            id,
            prompt: String::new(),
            command: None,
            args: Vec::new(),
            cwd: None,
            start_time: current_timestamp_ms(),
            end_time: None,
            duration_ms: None,
            exit_code: None,
            state: BlockState::Prompt,
            outputs: Vec::new(),
            metadata: HashMap::new(),
        }
    }

    /// Sets the command and its arguments; the block goes to the input
    /// state.
    pub fn set_command(&mut self, command: String, args: Vec<String>)
        ensures
            final(self).command == Some(command),
            final(self).args == args,
            final(self).state == BlockState::Input,
            final(self).id == old(self).id,
            final(self).prompt == old(self).prompt,
            final(self).cwd == old(self).cwd,
            final(self).start_time == old(self).start_time,
            final(self).end_time == old(self).end_time,
            final(self).duration_ms == old(self).duration_ms,
            final(self).exit_code == old(self).exit_code,
            final(self).outputs == old(self).outputs,
    {
        self.command = Some(command);
        self.args = args;
        self.state = BlockState::Input;
    }

    /// The command starts running.
    pub fn start_execution(&mut self)
        ensures
            state_set(*old(self), *final(self), BlockState::Executing),
            final(self).metadata == old(self).metadata,
    {
        self.state = BlockState::Executing;
    }

    /// Appends a piece of output.
    pub fn add_output(&mut self, stream: OutputStream, content: String)
        ensures
            final(self).outputs@.len() == old(self).outputs@.len() + 1,
            final(self).outputs@.drop_last() == old(self).outputs@,
            final(self).outputs@.last().stream == stream,
            final(self).outputs@.last().content == content,
            final(self).outputs@.last().line_range is None,
            final(self).id == old(self).id,
            final(self).prompt == old(self).prompt,
            final(self).args == old(self).args,
            final(self).start_time == old(self).start_time,
            state_set(*old(self), (CommandBlock { outputs: old(self).outputs, ..*final(self) }), old(self).state),
    {
        self.outputs.push(OutputBlock { stream, content, line_range: None });
        assert(self.outputs@.drop_last() =~= old(self).outputs@);
    }

    /// Records the end of the command at the clock's time `t`: the end
    /// time, the time it ran (see `elapsed`), the exit code; the block is
    /// finished.
    pub fn finish(&mut self, exit_code: Option<i32>)
        ensures
            same_core(*old(self), *final(self)),
            final(self).command == old(self).command,
            final(self).cwd == old(self).cwd,
            final(self).end_time matches Some(t) && final(self).duration_ms == Some(
                elapsed(old(self).start_time, t),
            ),
            final(self).exit_code == exit_code,
            final(self).state == BlockState::Finished,
            final(self).metadata == old(self).metadata,
    {
        let now = current_timestamp_ms();
        self.end_time = Some(now);
        let d: u64 = if now >= self.start_time { now - self.start_time } else { 0 };
        self.duration_ms = Some(d);
        self.exit_code = exit_code;
        self.state = BlockState::Finished;
    }

    /// Whether the command exited with 0.
    pub fn is_success(&self) -> (r: bool)
        ensures
            r == (self.exit_code == Some(0i32)),
    {
        match self.exit_code {
            Some(c) => c == 0,
            None => false,
        }
    }

    /// The number of bytes of output.
    pub fn total_output_length(&self) -> (r: usize)
        requires
            output_bytes(self.outputs@) <= usize::MAX,
        ensures
            r == output_bytes(self.outputs@),
    {
        let mut total: usize = 0;
        let mut i: usize = 0;
        while i < self.outputs.len()
            invariant
                i <= self.outputs@.len(),
                output_bytes(self.outputs@) <= usize::MAX,
                total == output_bytes(self.outputs@.take(i as int)),
            decreases self.outputs@.len() - i,
        {
            proof {
                assert(self.outputs@.take(i + 1).drop_last() =~= self.outputs@.take(i as int));
                lemma_output_bytes_prefix(self.outputs@, i + 1);
            }
            total = total + self.outputs[i].content.as_str().len();
            i = i + 1;
        }
        assert(self.outputs@.take(self.outputs@.len() as int) =~= self.outputs@);
        total
    }

    /// The output's texts one after the other.
    pub fn get_output_text(&self) -> (r: String)
        ensures
            r@ == output_text(self.outputs@),
    {
        let mut out = String::new();
        let mut i: usize = 0;
        while i < self.outputs.len()
            invariant
                i <= self.outputs@.len(),
                out@ == output_text(self.outputs@.take(i as int)),
            decreases self.outputs@.len() - i,
        {
            proof {
                assert(self.outputs@.take(i + 1).drop_last() =~= self.outputs@.take(i as int));
            }
            push_str(&mut out, self.outputs[i].content.as_str());
            i = i + 1;
        }
        assert(self.outputs@.take(self.outputs@.len() as int) =~= self.outputs@);
        out
    }
}

/// The bytes of a prefix of the outputs are no more than those of all.
proof fn lemma_output_bytes_prefix(os: Seq<OutputBlock>, i: int)
    requires
        0 <= i <= os.len(),
    ensures
        output_bytes(os.take(i)) <= output_bytes(os),
    decreases os.len() - i,
{
    if i < os.len() {
        lemma_output_bytes_prefix(os, i + 1);
        assert(os.take(i + 1).drop_last() =~= os.take(i));
    } else {
        assert(os.take(i) =~= os);
    }
}

/// The first position at or after `k` of a block with identifier `id`.
pub open spec fn block_index_from(bs: Seq<CommandBlock>, id: Seq<char>, k: int) -> Option<int>
    decreases bs.len() - k,
{
    if k < 0 || k >= bs.len() {
        None
    } else if bs[k].id@ == id {
        Some(k)
    } else {
        block_index_from(bs, id, k + 1)
    }
}

/// A position found from `k` on lies in `k..bs.len()` and holds the
/// identifier; none found means none there.
pub proof fn lemma_block_index_from(bs: Seq<CommandBlock>, id: Seq<char>, k: int)
    requires
        0 <= k,
    ensures
        block_index_from(bs, id, k) matches Some(i) ==> k <= i < bs.len() && bs[i].id@ == id,
        block_index_from(bs, id, k) is None ==> forall|j: int| k <= j < bs.len() ==> bs[j].id@ != id,
    decreases bs.len() - k,
{
    if k < bs.len() && bs[k].id@ != id {
        lemma_block_index_from(bs, id, k + 1);
    }
}

/// `bs2` is `bs1` with the block at `i` replaced by one that relates to
/// the old one by `rel`.
pub open spec fn only_block_changed(bs1: Seq<CommandBlock>, bs2: Seq<CommandBlock>, i: int) -> bool {
    &&& bs2.len() == bs1.len()
    &&& 0 <= i < bs1.len()
    &&& forall|j: int| 0 <= j < bs1.len() && j != i ==> bs2[j] == bs1[j]
}

/// The identifier made for the `n`th block opened without one.
pub open spec fn generated_id(n: nat) -> Seq<char> {
    "block_"@ + decimal(n)
}


/// `m2` is `m1` with the current block (if any) changed as `step` says
/// and nothing else: the current block and the counter stay.
pub open spec fn current_block_changed(
    m1: BlockManager,
    m2: BlockManager,
    step: spec_fn(CommandBlock, CommandBlock) -> bool,
) -> bool {
    &&& m2.counter() == m1.counter()
    &&& match m1.current_index_spec() {
        Some(i) => only_block_changed(m1.blocks_spec(), m2.blocks_spec(), i) && step(
            m1.blocks_spec()[i],
            m2.blocks_spec()[i],
        ),
        None => m2.blocks_spec() == m1.blocks_spec(),
    }
}

/// `b` is `a` with its command and working directory taken from the JSON
/// object `payload` where it has strings for them.
pub open spec fn command_meta_applied(a: CommandBlock, b: CommandBlock, payload: serde_json::Value) -> bool {
    &&& same_core(a, b)
    &&& opt_chars(b.command) == match json_str_at(payload, "command"@) {
        Some(c) => Some(c),
        None => opt_chars(a.command),
    }
    &&& opt_chars(b.cwd) == match json_str_at(payload, "cwd"@) {
        Some(c) => Some(c),
        None => opt_chars(a.cwd),
    }
    &&& b.end_time == a.end_time
    &&& b.duration_ms == a.duration_ms
    &&& b.exit_code == a.exit_code
    &&& b.state == a.state
}

/// `b` is `a` finished with `exit_code`, the running time taken from
/// `duration` where given, else measured.
pub open spec fn finished_with(a: CommandBlock, b: CommandBlock, exit_code: Option<i32>, duration: Option<u64>) -> bool {
    &&& same_core(a, b)
    &&& b.command == a.command
    &&& b.cwd == a.cwd
    &&& b.end_time matches Some(t) && b.duration_ms == Some(
        match duration {
            Some(d) => d,
            None => elapsed(a.start_time, t),
        },
    )
    &&& b.exit_code == exit_code
    &&& b.state == BlockState::Finished
}

/// What handling `seq` does to the manager `m1`, giving `m2` (the metadata
/// of the blocks left aside):
/// - a prompt start opens a block, with the sequence's `aid` or else a new
///   identifier, and the working directory of its metadata; it becomes the
///   current block;
/// - a command start or run moves the current block to the input or
///   executing state;
/// - a command end finishes the current block (exit code, end time, running
///   time from its metadata or measured) and leaves no block current;
/// - command metadata sets the current block's command and directory, an
///   OSC 7 its directory;
/// - anything else changes no block.
pub open spec fn osc_handled(m1: BlockManager, m2: BlockManager, seq: OscSequence) -> bool {
    match seq {
        OscSequence::PromptStart { aid, json, .. } => {
            let id = match aid {
                Some(a) => a@,
                None => generated_id((m1.counter() + 1) as nat),
            };
            let cwd = match json {
                Some(meta) => opt_chars(meta.cwd),
                None => None,
            };
            &&& m2.counter() == if aid is Some {
                m1.counter()
            } else {
                (m1.counter() + 1) as nat
            }
            &&& m2.blocks_spec().len() == m1.blocks_spec().len() + 1
            &&& m2.blocks_spec().drop_last() == m1.blocks_spec()
            &&& is_fresh_block(m2.blocks_spec().last(), id, cwd)
            &&& m2.current_id() == Some(id)
        },
        OscSequence::CommandStart { .. } => {
            &&& current_block_changed(m1, m2, |a: CommandBlock, b: CommandBlock| state_set(a, b, BlockState::Input))
            &&& m2.current_id() == m1.current_id()
        },
        OscSequence::CommandExecuting { .. } => {
            &&& current_block_changed(
                m1,
                m2,
                |a: CommandBlock, b: CommandBlock| state_set(a, b, BlockState::Executing),
            )
            &&& m2.current_id() == m1.current_id()
        },
        OscSequence::CommandFinished { exit_code, json, .. } => {
            let duration = match json {
                Some(r) => r.duration_ms,
                None => None,
            };
            &&& current_block_changed(
                m1,
                m2,
                |a: CommandBlock, b: CommandBlock| finished_with(a, b, exit_code, duration),
            )
            &&& m2.current_id() is None
        },
        OscSequence::JsonData { data_type, payload } => {
            &&& m2.current_id() == m1.current_id()
            &&& if data_type == JsonDataType::CommandMeta {
                current_block_changed(m1, m2, |a: CommandBlock, b: CommandBlock| command_meta_applied(a, b, payload))
            } else {
                current_block_changed(m1, m2, |a: CommandBlock, b: CommandBlock| state_set(a, b, a.state))
            }
        },
        OscSequence::Osc7WorkingDirectory(cwd) => {
            &&& current_block_changed(
                m1,
                m2,
                |a: CommandBlock, b: CommandBlock|
                    state_set((CommandBlock { cwd: Some(cwd), ..a }), b, a.state),
            )
            &&& m2.current_id() == m1.current_id()
        },
        _ => m2.blocks_spec() == m1.blocks_spec() && m2.current_id() == m1.current_id() && m2.counter()
            == m1.counter(),
    }
}

/// Whether the metadata `after` is `before` with `aid` noted under the key
/// `aid` (see `note_aid`), or `before` itself when there is none.
pub open spec fn aid_noted(
    before: Map<String, serde_json::Value>,
    after: Map<String, serde_json::Value>,
    aid: Option<String>,
) -> bool {
    match aid {
        Some(a) => string_noted(before, after, "aid"@, a@),
        None => after == before,
    }
}

/// Whether `step` relates the metadata of the current block before and
/// after (nothing is asked when there is no current block).
pub open spec fn current_metadata_changed(
    m1: BlockManager,
    m2: BlockManager,
    step: spec_fn(Map<String, serde_json::Value>, Map<String, serde_json::Value>) -> bool,
) -> bool {
    match m1.current_index_spec() {
        Some(i) => step(m1.blocks_spec()[i].metadata@, m2.blocks_spec()[i].metadata@),
        None => true,
    }
}

/// Whether `after` is `before` with the entries of the JSON object
/// `payload` inserted in its order (see `json_object_items`), or `before`
/// itself when `payload` is not an object.
pub open spec fn object_merged(
    before: Map<String, serde_json::Value>,
    after: Map<String, serde_json::Value>,
    payload: serde_json::Value,
) -> bool {
    match json_object_items(payload) {
        Some(items) => exists|es: Seq<(String, serde_json::Value)>|
            #[trigger] inserted_all(before, es) == after && es.map_values(
                |e: (String, serde_json::Value)| (e.0@, e.1),
            ) == items,
        None => after == before,
    }
}

/// What handling `seq` with the decoded metadata `typed` does to the
/// metadata of the blocks: a new block starts with `typed`; the aid of a
/// command start, run or end is noted on the current block, and a command
/// end adds `typed` after it; command or block metadata in JSON is merged
/// into the current block; nothing else changes it.
pub open spec fn metadata_handled(
    m1: BlockManager,
    m2: BlockManager,
    seq: OscSequence,
    typed: Seq<(String, serde_json::Value)>,
) -> bool {
    match seq {
        OscSequence::PromptStart { .. } => m2.blocks_spec().last().metadata@ == inserted_all(Map::empty(), typed),
        OscSequence::CommandStart { aid } => current_metadata_changed(
            m1,
            m2,
            |a: Map<String, serde_json::Value>, b: Map<String, serde_json::Value>| aid_noted(a, b, aid),
        ),
        OscSequence::CommandExecuting { aid } => current_metadata_changed(
            m1,
            m2,
            |a: Map<String, serde_json::Value>, b: Map<String, serde_json::Value>| aid_noted(a, b, aid),
        ),
        OscSequence::CommandFinished { aid, .. } => current_metadata_changed(
            m1,
            m2,
            |a: Map<String, serde_json::Value>, b: Map<String, serde_json::Value>|
                exists|mid: Map<String, serde_json::Value>|
                    #[trigger] aid_noted(a, mid, aid) && b == inserted_all(mid, typed),
        ),
        OscSequence::JsonData { data_type, payload } => current_metadata_changed(
            m1,
            m2,
            |a: Map<String, serde_json::Value>, b: Map<String, serde_json::Value>|
                if data_type == JsonDataType::CommandMeta || data_type == JsonDataType::BlockMeta {
                    object_merged(a, b, payload)
                } else {
                    b == a
                },
        ),
        OscSequence::Osc7WorkingDirectory(_) => current_metadata_changed(
            m1,
            m2,
            |a: Map<String, serde_json::Value>, b: Map<String, serde_json::Value>| b == a,
        ),
        _ => true,
    }
}

/// Whether handling `seq` may need a new identifier while the counter is
/// at its limit.
pub open spec fn counter_exhausted(m: BlockManager, seq: OscSequence) -> bool {
    seq matches OscSequence::PromptStart { aid: None, .. } && m.counter() >= u64::MAX
}

/// Keeps the command blocks of a session, the current one among them.
pub struct BlockManager {
    blocks: Vec<CommandBlock>,
    current_block_id: Option<String>,
    block_counter: u64,
}

impl BlockManager {
    /// The blocks, oldest first.
    pub closed spec fn blocks_spec(&self) -> Seq<CommandBlock> {
        self.blocks@
    }

    /// The identifier of the current block, if any.
    pub closed spec fn current_id(&self) -> Option<Seq<char>> {
        opt_chars(self.current_block_id)
    }

    /// How many identifiers have been made.
    pub closed spec fn counter(&self) -> nat {
        self.block_counter as nat
    }

    /// The position of the current block: the first block with the
    /// current identifier.
    pub open spec fn current_index_spec(&self) -> Option<int> {
        match self.current_id() {
            Some(id) => block_index_from(self.blocks_spec(), id, 0),
            None => None,
        }
    }

    /// The current block's position lies among the blocks and holds the
    /// current identifier.
    pub proof fn lemma_current_index(&self)
        ensures
            self.current_index_spec() matches Some(i) ==> 0 <= i < self.blocks_spec().len()
                && self.current_id() == Some(self.blocks_spec()[i].id@),
    {
        match self.current_id() {
            Some(id) => lemma_block_index_from(self.blocks@, id, 0),
            None => {},
        }
    }

    /// An empty manager.
    pub fn new() -> (m: BlockManager)
        ensures
            m.blocks_spec().len() == 0,
            m.current_id() is None,
            m.counter() == 0,
    {
        BlockManager { blocks: Vec::new(), current_block_id: None, block_counter: 0 }
    }

    /// The position of the current block (see `current_index_spec`).
    pub fn current_block_index(&self) -> (r: Option<usize>)
        ensures
            r == (match self.current_index_spec() {
                Some(i) => Some(i as usize),
                None => None,
            }),
            r matches Some(i) ==> i < self.blocks_spec().len() && self.current_index_spec() == Some(i as int),
            r is None ==> self.current_index_spec() is None,
    {
        match &self.current_block_id {
            Some(id) => {
                proof {
                    lemma_block_index_from(self.blocks@, id@, 0);
                }
                let mut i: usize = 0;
                while i < self.blocks.len()
                    invariant
                        i <= self.blocks@.len(),
                        self.current_id() == Some(id@),
                        block_index_from(self.blocks@, id@, 0) == block_index_from(self.blocks@, id@, i as int),
                    decreases self.blocks@.len() - i,
                {
                    if str_equal(self.blocks[i].id.as_str(), id.as_str()) {
                        return Some(i);
                    }
                    i = i + 1;
                }
                None
            },
            None => None,
        }
    }

    /// The current block.
    pub fn get_current_block(&self) -> (r: Option<&CommandBlock>)
        ensures
            (match r {
                Some(b) => self.current_index_spec() matches Some(i) && *b == self.blocks_spec()[i],
                None => self.current_index_spec() is None,
            }),
    {
        proof {
            self.lemma_current_index();
        }
        match self.current_block_index() {
            Some(i) => Some(&self.blocks[i]),
            None => None,
        }
    }

    /// The current block, to change.
    pub fn get_current_block_mut(&mut self) -> (r: Option<&mut CommandBlock>)
        ensures
            (match r {
                Some(b) => old(self).current_index_spec() matches Some(i) && *b == old(self).blocks_spec()[i]
                    && final(self).blocks_spec() == old(self).blocks_spec().update(i, *final(b))
                    && final(self).current_id() == old(self).current_id()
                    && final(self).counter() == old(self).counter(),
                None => old(self).current_index_spec() is None && *final(self) == *old(self),
            }),
    {
        proof {
            self.lemma_current_index();
        }
        match self.current_block_index() {
            Some(i) => Some(&mut self.blocks[i]),
            None => None,
        }
    }

    /// The blocks, oldest first.
    pub fn get_blocks(&self) -> (r: &[CommandBlock])
        ensures
            r@ == self.blocks_spec(),
    {
        self.blocks.as_slice()
    }

    /// The number of blocks.
    pub fn block_count(&self) -> (r: usize)
        ensures
            r == self.blocks_spec().len(),
    {
        self.blocks.len()
    }

    /// Drops every block; none is current.
    pub fn clear(&mut self)
        ensures
            final(self).blocks_spec().len() == 0,
            final(self).current_id() is None,
            final(self).counter() == old(self).counter(),
    {
        self.blocks.clear();
        self.current_block_id = None;
    }

    /// Keeps only the `max_blocks` most recent blocks, in order.
    pub fn trim_blocks(&mut self, max_blocks: usize)
        ensures
            old(self).blocks_spec().len() > max_blocks ==> final(self).blocks_spec() == old(
                self,
            ).blocks_spec().skip(old(self).blocks_spec().len() - max_blocks),
            old(self).blocks_spec().len() <= max_blocks ==> final(self).blocks_spec() == old(self).blocks_spec(),
            final(self).current_id() == old(self).current_id(),
            final(self).counter() == old(self).counter(),
    {
        if self.blocks.len() > max_blocks {
            let remove_count = self.blocks.len() - max_blocks;
            let tail = self.blocks.split_off(remove_count);
            self.blocks = tail;
        }
    }

    /// Adds the entries to a metadata map, in order, later ones replacing
    /// earlier.
    fn extend_metadata(map: &mut HashMap<String, serde_json::Value>, entries: Vec<(String, serde_json::Value)>)
        ensures
            obeys_key_model::<String>() ==> final(map)@ == inserted_all(old(map)@, entries@),
    {
        let ghost e0 = entries@;
        let mut entries = entries;
        let mut rest: Vec<(String, serde_json::Value)> = Vec::new();
        while entries.len() > 0
            invariant
                entries@.len() + rest@.len() == e0.len(),
                forall|j: int| 0 <= j < entries@.len() ==> #[trigger] entries@[j] == e0[j],
                forall|j: int| 0 <= j < rest@.len() ==> #[trigger] rest@[j] == e0[e0.len() - 1 - j],
            decreases entries@.len(),
        {
            match entries.pop() {
                Some(e) => rest.push(e),
                None => {},
            }
        }
        let ghost mut done: int = 0;
        assert(e0.take(0) =~= Seq::<(String, serde_json::Value)>::empty());
        while rest.len() > 0
            invariant
                rest@.len() + done == e0.len(),
                0 <= done <= e0.len(),
                forall|j: int| 0 <= j < rest@.len() ==> #[trigger] rest@[j] == e0[e0.len() - 1 - j],
                obeys_key_model::<String>() ==> map@ == inserted_all(old(map)@, e0.take(done)),
            decreases rest@.len(),
        {
            match rest.pop() {
                Some((k, v)) => {
                    proof {
                        assert(e0.take(done + 1).drop_last() =~= e0.take(done));
                    }
                    map.insert(k, v);
                    proof {
                        done = done + 1;
                    }
                },
                None => {},
            }
        }
        assert(e0.take(done) =~= e0);
    }

    /// Records `aid` in the metadata of block `i`, under the key `aid`, as a
    /// JSON string.
    fn note_aid(&mut self, i: usize, aid: &Option<String>)
        requires
            i < old(self).blocks@.len(),
        ensures
            final(self).blocks@.len() == old(self).blocks@.len(),
            forall|j: int| 0 <= j < old(self).blocks@.len() && j != i ==> final(self).blocks@[j] == old(self).blocks@[j],
            state_set(old(self).blocks@[i as int], final(self).blocks@[i as int], old(self).blocks@[i as int].state),
            final(self).current_block_id == old(self).current_block_id,
            final(self).block_counter == old(self).block_counter,
            aid is None ==> final(self).blocks@ == old(self).blocks@,
            aid matches Some(a) ==> (obeys_key_model::<String>() ==> string_noted(
                old(self).blocks@[i as int].metadata@,
                final(self).blocks@[i as int].metadata@,
                "aid"@,
                a@,
            )),
    {
        match aid {
            Some(a) => {
                let v = json_string(a.clone());
                let key = "aid".to_owned();
                let ghost m0 = self.blocks@[i as int].metadata@;
                let b = &mut self.blocks[i];
                b.metadata.insert(key, v);
                proof {
                    reveal_strlit("aid");
                    if obeys_key_model::<String>() {
                        assert(m0.insert(key, v) == self.blocks@[i as int].metadata@);
                    }
                }
            },
            None => {},
        }
    }

    /// Handles an OSC sequence (see `osc_handled`), merging the entries of
    /// `typed_metadata` (the decoded metadata of a prompt start or command
    /// end, as JSON) into the block's metadata.
    pub fn handle_osc_sequence_with_metadata(
        &mut self,
        seq: &OscSequence,
        typed_metadata: Vec<(String, serde_json::Value)>,
    )
        requires
            !counter_exhausted(*old(self), *seq),
        ensures
            osc_handled(*old(self), *final(self), *seq),
            obeys_key_model::<String>() ==> metadata_handled(*old(self), *final(self), *seq, typed_metadata@),
    {
        proof {
            self.lemma_current_index();
        }
        let ghost typed = typed_metadata@;
        match seq {
            OscSequence::PromptStart { aid, json, .. } => {
                let block_id = match aid {
                    Some(a) => a.clone(),
                    None => self.generate_block_id(),
                };
                let mut block = CommandBlock::new(block_id.clone());
                match json {
                    Some(meta) => {
                        match &meta.cwd {
                            Some(c) => {
                                block.cwd = Some(c.clone());
                            },
                            None => {},
                        }
                    },
                    None => {},
                }
                Self::extend_metadata(&mut block.metadata, typed_metadata);
                self.blocks.push(block);
                self.current_block_id = Some(block_id);
                assert(self.blocks@.drop_last() =~= old(self).blocks@);
            },
            OscSequence::CommandStart { aid } => {
                match self.current_block_index() {
                    Some(i) => {
                        self.note_aid(i, aid);
                        let b = &mut self.blocks[i];
                        b.state = BlockState::Input;
                    },
                    None => {},
                }
            },
            OscSequence::CommandExecuting { aid } => {
                match self.current_block_index() {
                    Some(i) => {
                        self.note_aid(i, aid);
                        let b = &mut self.blocks[i];
                        b.start_execution();
                    },
                    None => {},
                }
            },
            OscSequence::CommandFinished { exit_code, aid, json, .. } => {
                match self.current_block_index() {
                    Some(i) => {
                        {
                            let b = &mut self.blocks[i];
                            b.finish(*exit_code);
                        }
                        self.note_aid(i, aid);
                        let ghost mid = self.blocks@[i as int].metadata@;
                        proof {
                            if obeys_key_model::<String>() {
                                assert(aid_noted(old(self).blocks@[i as int].metadata@, mid, *aid));
                            }
                        }
                        let b = &mut self.blocks[i];
                        match json {
                            Some(result) => match result.duration_ms {
                                Some(d) => {
                                    b.duration_ms = Some(d);
                                },
                                None => {},
                            },
                            None => {},
                        }
                        Self::extend_metadata(&mut b.metadata, typed_metadata);
                    },
                    None => {},
                }
                self.current_block_id = None;
            },
            OscSequence::JsonData { data_type, payload } => {
                match self.current_block_index() {
                    Some(i) => {
                        let b = &mut self.blocks[i];
                        if *data_type == JsonDataType::CommandMeta {
                            match json_str_field(payload, "command") {
                                Some(c) => {
                                    b.command = Some(c);
                                },
                                None => {},
                            }
                            match json_str_field(payload, "cwd") {
                                Some(c) => {
                                    b.cwd = Some(c);
                                },
                                None => {},
                            }
                        }
                        if *data_type == JsonDataType::CommandMeta || *data_type == JsonDataType::BlockMeta {
                            match json_object_entries(payload) {
                                Some(es) => {
                                    let ghost before = b.metadata@;
                                    let ghost entries = es@;
                                    Self::extend_metadata(&mut b.metadata, es);
                                    proof {
                                        if obeys_key_model::<String>() {
                                            assert(inserted_all(before, entries) == b.metadata@);
                                        }
                                    }
                                },
                                None => {},
                            }
                        }
                    },
                    None => {},
                }
            },
            OscSequence::Osc7WorkingDirectory(cwd) => {
                match self.current_block_index() {
                    Some(i) => {
                        let b = &mut self.blocks[i];
                        b.cwd = Some(cwd.clone());
                    },
                    None => {},
                }
            },
            _ => {},
        }
    }

    /// Handles an OSC sequence (see `osc_handled`). The decoded metadata of
    /// a prompt start or command end is not merged into the block's
    /// metadata; `handle_osc_sequence_with_metadata` takes it as JSON.
    pub fn handle_osc_sequence(&mut self, seq: &OscSequence)
        requires
            !counter_exhausted(*old(self), *seq),
        ensures
            osc_handled(*old(self), *final(self), *seq),
    {
        self.handle_osc_sequence_with_metadata(seq, Vec::new());
    }

    /// Whether another identifier can still be made.
    pub fn counter_available(&self) -> (r: bool)
        ensures
            r == (self.counter() < u64::MAX),
    {
        self.block_counter < u64::MAX
    }

    /// Makes the identifier of the next block opened without one.
    fn generate_block_id(&mut self) -> (r: String)
        requires
            old(self).counter() < u64::MAX,
        ensures
            final(self).counter() == old(self).counter() + 1,
            r@ == generated_id(final(self).counter()),
            final(self).blocks_spec() == old(self).blocks_spec(),
            final(self).current_id() == old(self).current_id(),
    {
        self.block_counter = self.block_counter + 1;
        let mut id = String::new();
        push_str(&mut id, "block_");
        push_decimal(&mut id, self.block_counter);
        proof {
            reveal_strlit("block_");
        }
        id
    }
}

impl Default for BlockManager {
    /// An empty manager.
    fn default() -> (m: BlockManager)
        ensures
            m.blocks_spec().len() == 0,
            m.current_id() is None,
            m.counter() == 0,
    {
        BlockManager::new()
    }
}

/// A prompt start whose identifier no earlier block has makes the new
/// block, the last one, current.
pub proof fn lemma_prompt_start_current(m1: BlockManager, m2: BlockManager, seq: OscSequence)
    requires
        seq matches OscSequence::PromptStart { aid, .. },
        osc_handled(m1, m2, seq),
        m2.current_id() matches Some(id) && forall|j: int|
            0 <= j < m1.blocks_spec().len() ==> (#[trigger] m1.blocks_spec()[j]).id@ != id,
    ensures
        m2.current_index_spec() == Some(m1.blocks_spec().len() as int),
{
    let id = m2.current_id()->0;
    let n = m1.blocks_spec().len() as int;
    assert forall|j: int| 0 <= j < n implies (#[trigger] m2.blocks_spec()[j]).id@ != id by {
        assert(m2.blocks_spec()[j] == m2.blocks_spec().drop_last()[j]);
    }
    lemma_index_skips(m2.blocks_spec(), id, 0, n);
}

/// Searching from `k` passes over positions before `n` that lack the
/// identifier, and stops at `n` where it is.
proof fn lemma_index_skips(bs: Seq<CommandBlock>, id: Seq<char>, k: int, n: int)
    requires
        0 <= k <= n < bs.len(),
        bs[n].id@ == id,
        forall|j: int| k <= j < n ==> (#[trigger] bs[j]).id@ != id,
    ensures
        block_index_from(bs, id, k) == Some(n),
    decreases n - k,
{
    if k < n {
        lemma_index_skips(bs, id, k + 1, n);
    }
}

/// A whole command (prompt start with a new identifier, command start, run
/// and end with exit code `code`) leaves one more block, finished with that
/// exit code and in the finished state, and no block current.
pub proof fn lemma_command_lifecycle(
    m0: BlockManager,
    m1: BlockManager,
    m2: BlockManager,
    m3: BlockManager,
    m4: BlockManager,
    a: OscSequence,
    b: OscSequence,
    c: OscSequence,
    d: OscSequence,
    code: Option<i32>,
)
    requires
        a matches OscSequence::PromptStart { .. },
        b matches OscSequence::CommandStart { .. },
        c matches OscSequence::CommandExecuting { .. },
        d matches OscSequence::CommandFinished { exit_code, .. } && exit_code == code,
        osc_handled(m0, m1, a),
        osc_handled(m1, m2, b),
        osc_handled(m2, m3, c),
        osc_handled(m3, m4, d),
        m1.current_id() matches Some(id) && forall|j: int|
            0 <= j < m0.blocks_spec().len() ==> (#[trigger] m0.blocks_spec()[j]).id@ != id,
    ensures
        m4.blocks_spec().len() == m0.blocks_spec().len() + 1,
        m4.blocks_spec().last().exit_code == code,
        m4.blocks_spec().last().state == BlockState::Finished,
        m4.blocks_spec().last().id == m1.blocks_spec().last().id,
        m4.current_id() is None,
{
    let n = m0.blocks_spec().len() as int;
    lemma_prompt_start_current(m0, m1, a);
    assert(m2.blocks_spec()[n].id == m1.blocks_spec()[n].id);
    assert(m2.current_index_spec() == Some(n)) by {
        assert forall|j: int| 0 <= j < n implies (#[trigger] m2.blocks_spec()[j]).id@ != m2.current_id()->0 by {
            assert(m2.blocks_spec()[j] == m1.blocks_spec()[j]);
            assert(m1.blocks_spec()[j] == m1.blocks_spec().drop_last()[j]);
        }
        lemma_index_skips(m2.blocks_spec(), m2.current_id()->0, 0, n);
    }
    assert(m3.current_index_spec() == Some(n)) by {
        assert forall|j: int| 0 <= j < n implies (#[trigger] m3.blocks_spec()[j]).id@ != m3.current_id()->0 by {
            assert(m3.blocks_spec()[j] == m2.blocks_spec()[j]);
            assert(m2.blocks_spec()[j] == m1.blocks_spec()[j]);
            assert(m1.blocks_spec()[j] == m1.blocks_spec().drop_last()[j]);
        }
        lemma_index_skips(m3.blocks_spec(), m3.current_id()->0, 0, n);
    }
}

/// Finishing a block records how long the command ran: the end time less
/// the start time, so that the start time plus the duration is the end
/// time; a clock that went back gives 0. `after` is `before` as
/// `CommandBlock::finish` leaves it.
pub proof fn lemma_finish_duration(before: CommandBlock, after: CommandBlock, t: u64)
    requires
        same_core(before, after),
        after.end_time == Some(t),
        after.duration_ms == Some(elapsed(before.start_time, t)),
    ensures
        after.start_time == before.start_time,
        t >= before.start_time ==> (after.duration_ms matches Some(d) && after.start_time + d == t),
        t < before.start_time ==> after.duration_ms == Some(0u64),
        after.duration_ms matches Some(d) && d <= t,
{
}

/// A command end without a reported duration leaves the current block
/// with its run time: its end time less its start time (0 if the clock
/// went back); a reported duration is kept as given.
pub proof fn lemma_command_end_duration(a: CommandBlock, b: CommandBlock, exit_code: Option<i32>, reported: Option<u64>)
    requires
        finished_with(a, b, exit_code, reported),
    ensures
        b.end_time matches Some(t) && match reported {
            Some(d) => b.duration_ms == Some(d),
            None => b.duration_ms matches Some(d) && (if t >= a.start_time {
                a.start_time + d == t
            } else {
                d == 0
            }),
        },
{
}

} // verus!
