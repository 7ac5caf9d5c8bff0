//! A scanner that picks OSC 133, 633, 7 and 531 sequences out of the byte
//! stream before it reaches the terminal parser.
//!
//! The scanner is a small state machine fed one byte at a time; the payload
//! of an OSC (the bytes between `ESC ]` and `BEL` or `ESC \`) is kept in a
//! buffer of bounded length, and each payload that is closed is read as a
//! sequence.
use vstd::prelude::*;

use std::collections::HashMap;

use super::handler::{decode_percent, first_field, hex_pair, hex_pair_value, percent_decoded, rest_field};
use super::json_types::{BlockMetadata, CommandResult, JsonDataType};
use crate::text::{
    find_char, first_index_of, has_prefix, inserted_all, lemma_index_from, pairs_read_as, parse_i32,
    parsed_i32, push_char, push_str, str_equal, str_starts_with, trim, trimmed,
};
use vstd::std_specs::hash::obeys_key_model;
use vstd::utf8::{decode_utf8, valid_utf8};

verus! {

/// A JSON value, carried through as an opaque value.
#[verifier::external_type_specification]
#[verifier::external_body]
pub struct ExJsonValue(serde_json::Value);

/// The text that `String::from_utf8_lossy` makes of `bytes`.
pub uninterp spec fn utf8_lossy(bytes: Seq<u8>) -> Seq<char>;

/// Calls `String::from_utf8_lossy`: it decodes `bytes` as UTF-8, putting
/// U+FFFD in place of each invalid run; valid UTF-8 comes back as it
/// decodes. What it makes of invalid bytes is left to the name
/// `utf8_lossy`.
#[verifier::external_body]
pub(crate) fn decode_lossy(bytes: &[u8]) -> (r: String)
    ensures
        r@ == utf8_lossy(bytes@),
        valid_utf8(bytes@) ==> r@ == decode_utf8(bytes@),
{
    String::from_utf8_lossy(bytes).into_owned()
}

/// Whether `serde_json::from_str::<serde_json::Value>` accepts `text`.
pub uninterp spec fn json_parses(text: Seq<char>) -> bool;

/// The value that `serde_json::from_str::<serde_json::Value>` reads from
/// `text`, where it accepts it.
pub uninterp spec fn json_value(text: Seq<char>) -> serde_json::Value;

/// Calls `serde_json::from_str::<serde_json::Value>`. It gives a value
/// exactly when the text is JSON, and then the value it reads from the
/// text (named `json_value`).
#[verifier::external_body]
pub(crate) fn parse_json(text: &str) -> (r: Option<serde_json::Value>)
    ensures
        r is Some <==> json_parses(text@),
        r matches Some(v) ==> v == json_value(text@),
{
    serde_json::from_str::<serde_json::Value>(text).ok()
}

/// The string that a JSON value holds under `key`, if it is an object
/// with a string there.
pub uninterp spec fn json_str_at(v: serde_json::Value, key: Seq<char>) -> Option<Seq<char>>;

/// Calls `serde_json::Value::get` with `key` and then `as_str`: the string
/// stored under `key` of an object (`None` for anything else).
#[verifier::external_body]
pub(crate) fn json_str_field(v: &serde_json::Value, key: &str) -> (r: Option<String>)
    ensures
        (match r {
            Some(s) => json_str_at(*v, key@) == Some(s@),
            None => json_str_at(*v, key@) is None,
        }),
{
    match v.get(key) {
        Some(x) => match x.as_str() {
            Some(s) => Some(s.to_owned()),
            None => None,
        },
        None => None,
    }
}

/// Where the scanner stands in the byte stream.
#[derive(Debug, Clone, Copy, PartialEq, Eq, Structural)]
pub enum ScanState {
    /// Outside any escape sequence.
    Ground,
    /// After `ESC` (a further `ESC` keeps it here).
    Escape,
    /// After `ESC ]`.
    OscStart,
    /// Inside an OSC payload.
    OscCollect,
    /// After an `ESC` inside an OSC payload.
    OscEscape,
}

/// The scanner's state as plain values: where it stands, the payload so
/// far, and whether the payload overflowed its bound.
pub struct ScanModel {
    pub state: ScanState,
    pub buffer: Seq<u8>,
    pub full: bool,
}

/// Adds `b` to the payload if it is not marked full: the byte goes in when
/// there is room, else the payload is marked full.
pub open spec fn collect_one(m: ScanModel, max: nat, b: u8) -> ScanModel {
    if m.full {
        m
    } else if m.buffer.len() < max {
        ScanModel { buffer: m.buffer.push(b), ..m }
    } else {
        ScanModel { full: true, ..m }
    }
}

/// One step of the scanner on byte `b`: the new state, and the payload that
/// the byte closed, if it closed one.
pub open spec fn osc_step(m: ScanModel, max: nat, b: u8) -> (ScanModel, Option<Seq<u8>>) {
    match m.state {
        ScanState::Ground => {
            if b == 0x1b {
                (ScanModel { state: ScanState::Escape, ..m }, None)
            } else {
                (m, None)
            }
        },
        ScanState::Escape => {
            if b == 0x5d {
                (ScanModel { state: ScanState::OscStart, buffer: Seq::empty(), full: false }, None)
            } else if b == 0x1b {
                (m, None)
            } else {
                (ScanModel { state: ScanState::Ground, ..m }, None)
            }
        },
        ScanState::OscStart => {
            (collect_one(ScanModel { state: ScanState::OscCollect, ..m }, max, b), None)
        },
        ScanState::OscCollect => {
            if b == 0x07 {
                (ScanModel { state: ScanState::Ground, buffer: Seq::empty(), full: m.full }, Some(m.buffer))
            } else if b == 0x1b {
                (ScanModel { state: ScanState::OscEscape, ..m }, None)
            } else {
                (collect_one(m, max, b), None)
            }
        },
        ScanState::OscEscape => {
            if b == 0x5c {
                (ScanModel { state: ScanState::Ground, buffer: Seq::empty(), full: m.full }, Some(m.buffer))
            } else if m.full {
                (ScanModel { state: ScanState::OscCollect, ..m }, None)
            } else if m.buffer.len() + 2 <= max {
                (
                    ScanModel { state: ScanState::OscCollect, buffer: m.buffer.push(0x1b).push(b), full: false },
                    None,
                )
            } else {
                (ScanModel { state: ScanState::OscCollect, buffer: m.buffer, full: true }, None)
            }
        },
    }
}

/// The scanner run over `data` from state `m`: the final state and the
/// payloads closed on the way, in order.
pub open spec fn osc_run(m: ScanModel, max: nat, data: Seq<u8>) -> (ScanModel, Seq<Seq<u8>>)
    decreases data.len(),
{
    if data.len() == 0 {
        (m, Seq::empty())
    } else {
        let prev = osc_run(m, max, data.drop_last());
        let step = osc_step(prev.0, max, data.last());
        (
            step.0,
            match step.1 {
                Some(p) => prev.1.push(p),
                None => prev.1,
            },
        )
    }
}

/// Scanning `a` and then `b` is scanning `a + b`: the scanner ends in the
/// same state and has closed the payloads of `a`, then those of `b`. So a
/// stream can be fed in pieces cut anywhere.
pub proof fn lemma_scan_split(m: ScanModel, max: nat, a: Seq<u8>, b: Seq<u8>)
    ensures
        osc_run(m, max, a + b).0 == osc_run(osc_run(m, max, a).0, max, b).0,
        osc_run(m, max, a + b).1 == osc_run(m, max, a).1 + osc_run(osc_run(m, max, a).0, max, b).1,
    decreases b.len(),
{
    if b.len() == 0 {
        assert(a + b =~= a);
        assert(osc_run(m, max, a).1 + Seq::<Seq<u8>>::empty() =~= osc_run(m, max, a).1);
    } else {
        lemma_scan_split(m, max, a, b.drop_last());
        assert((a + b).drop_last() =~= a + b.drop_last());
        assert((a + b).last() == b.last());
        let mid = osc_run(m, max, a).0;
        let pa = osc_run(m, max, a).1;
        let pb = osc_run(mid, max, b.drop_last()).1;
        let s = osc_step(osc_run(mid, max, b.drop_last()).0, max, b.last());
        match s.1 {
            Some(p) => {
                assert((pa + pb).push(p) =~= pa + pb.push(p));
            },
            None => {},
        }
    }
}

/// The payload never outgrows the bound.
pub proof fn lemma_run_bounded(m: ScanModel, max: nat, data: Seq<u8>)
    requires
        m.buffer.len() <= max,
    ensures
        osc_run(m, max, data).0.buffer.len() <= max,
    decreases data.len(),
{
    if data.len() > 0 {
        lemma_run_bounded(m, max, data.drop_last());
    }
}


/// `s` with the escapes of the shell scripts undone: `\xHH` (two
/// characters that read as a byte, see `hex_pair`) becomes the character of
/// that byte, `\n` a newline and `\\` one backslash; a `\x` that does not
/// read is kept with the (up to two) characters after it, and any other
/// backslash is kept as it is.
pub open spec fn unescaped(s: Seq<char>) -> Seq<char>
    decreases s.len(),
{
    if s.len() == 0 {
        Seq::empty()
    } else if s[0] == '\\' && s.len() >= 2 && s[1] == 'x' {
        if s.len() >= 4 && hex_pair(s[2], s[3]) is Some {
            seq![(hex_pair(s[2], s[3])->0) as char] + unescaped(s.skip(4))
        } else {
            let k: int = if s.len() >= 4 { 4 } else { s.len() as int };
            s.take(k) + unescaped(s.skip(k))
        }
    } else if s[0] == '\\' && s.len() >= 2 && s[1] == 'n' {
        seq!['\n'] + unescaped(s.skip(2))
    } else if s[0] == '\\' && s.len() >= 2 && s[1] == '\\' {
        seq!['\\'] + unescaped(s.skip(2))
    } else {
        seq![s[0]] + unescaped(s.skip(1))
    }
}

/// The `key=value` pair of one parameter, both sides trimmed; `None`
/// without an `=`.
pub open spec fn part_pair(p: Seq<char>) -> Option<(Seq<char>, Seq<char>)> {
    match first_index_of(p, '=') {
        Some(j) => Some((trimmed(p.take(j)), trimmed(p.skip(j + 1)))),
        None => None,
    }
}

/// The pairs of the `;`-separated parameters `s`, in order.
pub open spec fn param_pairs_of(s: Seq<char>) -> Seq<(Seq<char>, Seq<char>)>
    decreases s.len(),
{
    let head: Seq<(Seq<char>, Seq<char>)> = match part_pair(first_field(s)) {
        Some(kv) => seq![kv],
        None => Seq::empty(),
    };
    match first_index_of(s, ';') {
        Some(i) => {
            proof {
                lemma_index_from(s, ';', 0);
            }
            head + param_pairs_of(s.skip(i + 1))
        },
        None => head,
    }
}

/// The value of parameter `key` in `s`: that of the last pair with that
/// key, as a map filled in order keeps it.
pub open spec fn param_value(s: Seq<char>, key: Seq<char>) -> Option<Seq<char>>
    decreases s.len(),
{
    let here = match part_pair(first_field(s)) {
        Some(kv) => if kv.0 == key {
            Some(kv.1)
        } else {
            None
        },
        None => None,
    };
    match first_index_of(s, ';') {
        Some(i) => {
            proof {
                lemma_index_from(s, ';', 0);
            }
            match param_value(s.skip(i + 1), key) {
                Some(v) => Some(v),
                None => here,
            }
        },
        None => here,
    }
}

/// The exit code of an OSC 133 D with parameters `ps` (what follows the
/// `D`): an `exit_code=N` parameter, else the first field after a leading
/// `;` (trimmed), either read as an `i32`.
pub open spec fn exit_code_param(ps: Seq<char>) -> Option<i32> {
    match param_value(ps, "exit_code"@) {
        Some(v) => parsed_i32(v),
        None => if ps.len() > 0 && ps[0] == ';' {
            parsed_i32(trimmed(first_field(ps.skip(1))))
        } else {
            None
        },
    }
}

/// The kind of an OSC 531 payload from its `type` field.
pub open spec fn json_kind(t: Option<Seq<char>>) -> JsonDataType {
    match t {
        Some(s) => if s == "command_start"@ || s == "command_end"@ {
            JsonDataType::CommandMeta
        } else if s == "prompt_start"@ {
            JsonDataType::BlockMeta
        } else if s == "directory_changed"@ {
            JsonDataType::OutputMeta
        } else {
            JsonDataType::Custom
        },
        None => JsonDataType::Custom,
    }
}

/// What an OSC payload means, as plain values.
pub enum OscModel {
    PromptStart { aid: Option<Seq<char>>, json_text: Option<Seq<char>> },
    CommandStart { aid: Option<Seq<char>> },
    CommandExecuting { aid: Option<Seq<char>> },
    CommandFinished { exit_code: Option<i32>, aid: Option<Seq<char>>, json_text: Option<Seq<char>> },
    CommandText(Seq<char>),
    WorkingDirectory(Seq<char>),
    Osc7WorkingDirectory(Seq<char>),
    JsonData { text: Seq<char> },
}

/// The characters of an optional string.
pub open spec fn opt_chars(s: Option<String>) -> Option<Seq<char>> {
    match s {
        Some(t) => Some(t@),
        None => None,
    }
}

/// Reading an OSC 133 payload whose first parameter starts with a
/// character of more than one byte slices a string inside that character.
pub open spec fn osc_text_faults(content: Seq<char>) -> bool {
    &&& first_field(content) == "133"@
    &&& first_index_of(content, ';') is Some
    &&& rest_field(content).len() > 0
    &&& rest_field(content)[0] as u32 >= 0x80
}

/// What the parameter of an OSC 133 means: `A`..`D` followed by optional
/// `aid=`, `json=` and exit code parameters.
pub open spec fn osc133_parse(sub: Seq<char>) -> Option<OscModel> {
    if sub.len() == 0 {
        None
    } else {
        let ps = sub.skip(1);
        let aid = param_value(ps, "aid"@);
        let json_text = match param_value(ps, "json"@) {
            Some(j) => Some(unescaped(j)),
            None => None,
        };
        if sub[0] == 'A' {
            Some(OscModel::PromptStart { aid, json_text })
        } else if sub[0] == 'B' {
            Some(OscModel::CommandStart { aid })
        } else if sub[0] == 'C' {
            Some(OscModel::CommandExecuting { aid })
        } else if sub[0] == 'D' {
            Some(OscModel::CommandFinished { exit_code: exit_code_param(ps), aid, json_text })
        } else {
            None
        }
    }
}

/// What an OSC payload (as text) means: `133;A`..`133;D` with optional
/// `aid=`, `json=` and exit code parameters, `633;E;<command>` (the command
/// percent-decoded),
/// `633;P;Cwd=<dir>`, `7;<url>` and `531;<escaped JSON>`; anything else
/// means nothing.
pub open spec fn osc_parse(content: Seq<char>) -> Option<OscModel> {
    let cmd = first_field(content);
    let sub = rest_field(content);
    if first_index_of(content, ';') is None {
        None
    } else if cmd == "133"@ {
        osc133_parse(sub)
    } else if cmd == "633"@ {
        if has_prefix(sub, "E;"@) {
            Some(OscModel::CommandText(percent_decoded(sub.skip(2))))
        } else if has_prefix(sub, "P;Cwd="@) {
            Some(OscModel::WorkingDirectory(sub.skip(6)))
        } else {
            None
        }
    } else if cmd == "7"@ {
        Some(OscModel::Osc7WorkingDirectory(sub))
    } else if cmd == "531"@ {
        if json_parses(unescaped(sub)) {
            Some(OscModel::JsonData { text: unescaped(sub) })
        } else {
            None
        }
    } else {
        None
    }
}

/// What a closed payload means: nothing when empty, else its text (decoded
/// leniently) read by `osc_parse`.
pub open spec fn payload_parse(p: Seq<u8>) -> Option<OscModel> {
    if p.len() == 0 {
        None
    } else {
        osc_parse(utf8_lossy(p))
    }
}

/// Whether reading payload `p` would fault (see `osc_text_faults`).
pub open spec fn payload_faults(p: Seq<u8>) -> bool {
    p.len() > 0 && osc_text_faults(utf8_lossy(p))
}

/// The meanings of the payloads `ps`, those that mean nothing left out.
pub open spec fn parse_all(ps: Seq<Seq<u8>>) -> Seq<OscModel>
    decreases ps.len(),
{
    if ps.len() == 0 {
        Seq::empty()
    } else {
        match payload_parse(ps.last()) {
            Some(m) => parse_all(ps.drop_last()).push(m),
            None => parse_all(ps.drop_last()),
        }
    }
}

/// Reading payloads `p + q` reads those of `p`, then those of `q`.
pub proof fn lemma_parse_all_split(p: Seq<Seq<u8>>, q: Seq<Seq<u8>>)
    ensures
        parse_all(p + q) == parse_all(p) + parse_all(q),
    decreases q.len(),
{
    if q.len() == 0 {
        assert(p + q =~= p);
        assert(parse_all(p) + Seq::<OscModel>::empty() =~= parse_all(p));
    } else {
        lemma_parse_all_split(p, q.drop_last());
        assert((p + q).drop_last() =~= p + q.drop_last());
        assert((p + q).last() == q.last());
        match payload_parse(q.last()) {
            Some(m) => {
                assert((parse_all(p) + parse_all(q.drop_last())).push(m) =~= parse_all(p) + parse_all(
                    q.drop_last(),
                ).push(m));
            },
            None => {},
        }
    }
}

/// Whether `r` is what `scan` returns for `data` from the model `m` (see
/// `OscScanner::scan`): one sequence per payload closed and read, in order.
pub open spec fn scanned_all(r: Seq<OscSequence>, m: ScanModel, max: nat, data: Seq<u8>) -> bool {
    let ms = parse_all(osc_run(m, max, data).1);
    &&& r.len() == ms.len()
    &&& forall|k: int| 0 <= k < r.len() ==> (#[trigger] r[k]).scanned_as(ms[k])
}

/// Feeding a stream in two pieces gives the sequences that feeding it
/// whole gives: if `r1` is what scanning `a` returns, `r2` what scanning
/// `b` then returns, and `r` what scanning `a + b` from the same start
/// returns, then `r` has the sequences of `r1` followed by those of `r2`,
/// each read from the same payload.
pub proof fn lemma_scan_pieces(
    m: ScanModel,
    max: nat,
    a: Seq<u8>,
    b: Seq<u8>,
    r1: Seq<OscSequence>,
    r2: Seq<OscSequence>,
    r: Seq<OscSequence>,
)
    requires
        scanned_all(r1, m, max, a),
        scanned_all(r2, osc_run(m, max, a).0, max, b),
        scanned_all(r, m, max, a + b),
    ensures
        r.len() == r1.len() + r2.len(),
        forall|k: int|
            0 <= k < r.len() ==> #[trigger] r[k].scanned_as(
                parse_all(osc_run(m, max, a + b).1)[k],
            ) && (r1 + r2)[k].scanned_as(parse_all(osc_run(m, max, a + b).1)[k]),
        osc_run(m, max, a + b).0 == osc_run(osc_run(m, max, a).0, max, b).0,
{
    lemma_scan_split(m, max, a, b);
    lemma_parse_all_split(osc_run(m, max, a).1, osc_run(osc_run(m, max, a).0, max, b).1);
    let ms1 = parse_all(osc_run(m, max, a).1);
    let ms2 = parse_all(osc_run(osc_run(m, max, a).0, max, b).1);
    assert forall|k: int| 0 <= k < r.len() implies #[trigger] r[k].scanned_as(
        parse_all(osc_run(m, max, a + b).1)[k],
    ) && (r1 + r2)[k].scanned_as(parse_all(osc_run(m, max, a + b).1)[k]) by {
        if k < r1.len() {
            assert((r1 + r2)[k] == r1[k]);
            assert((ms1 + ms2)[k] == ms1[k]);
        } else {
            assert((r1 + r2)[k] == r2[k - r1.len()]);
            assert((ms1 + ms2)[k] == ms2[k - ms1.len()]);
        }
    }
}

/// An OSC sequence that the scanner recognised.
#[derive(Debug)]
pub enum OscSequence {
    /// OSC 133;A: a prompt starts. `json` is the decoded block metadata;
    /// `json_text` the `json=` parameter as text, as the scanner found it.
    PromptStart { aid: Option<String>, json: Option<BlockMetadata>, json_text: Option<String> },
    /// OSC 133;B: the command line starts.
    CommandStart { aid: Option<String> },
    /// OSC 133;C: the command runs.
    CommandExecuting { aid: Option<String> },
    /// OSC 133;D: the command finished. `json` is the decoded result;
    /// `json_text` the `json=` parameter as text, as the scanner found it.
    CommandFinished {
        exit_code: Option<i32>,
        aid: Option<String>,
        json: Option<CommandResult>,
        json_text: Option<String>,
    },
    /// OSC 633;E: the command's text.
    CommandText(String),
    /// OSC 633;P;Cwd=: the working directory.
    WorkingDirectory(String),
    /// OSC 7: the working directory as a URL.
    Osc7WorkingDirectory(String),
    /// OSC 531: JSON data.
    JsonData { data_type: JsonDataType, payload: serde_json::Value },
}

impl OscSequence {
    /// The sequence is what the scanner makes of a payload meaning `m`: the
    /// same fields, nothing decoded yet, and for JSON data a parsed value
    /// whose kind follows its `type` field.
    pub open spec fn scanned_as(&self, m: OscModel) -> bool {
        match (*self, m) {
            (OscSequence::PromptStart { aid, json, json_text }, OscModel::PromptStart { aid: a, json_text: j }) => {
                opt_chars(aid) == a && json is None && opt_chars(json_text) == j
            },
            (OscSequence::CommandStart { aid }, OscModel::CommandStart { aid: a }) => opt_chars(aid) == a,
            (OscSequence::CommandExecuting { aid }, OscModel::CommandExecuting { aid: a }) => opt_chars(aid) == a,
            (
                OscSequence::CommandFinished { exit_code, aid, json, json_text },
                OscModel::CommandFinished { exit_code: e, aid: a, json_text: j },
            ) => exit_code == e && opt_chars(aid) == a && json is None && opt_chars(json_text) == j,
            (OscSequence::CommandText(t), OscModel::CommandText(u)) => t@ == u,
            (OscSequence::WorkingDirectory(t), OscModel::WorkingDirectory(u)) => t@ == u,
            (OscSequence::Osc7WorkingDirectory(t), OscModel::Osc7WorkingDirectory(u)) => t@ == u,
            (OscSequence::JsonData { data_type, payload }, OscModel::JsonData { text }) => {
                json_parses(text) && payload == json_value(text) && data_type == json_kind(
                    json_str_at(payload, "type"@),
                )
            },
            _ => false,
        }
    }
}


/// The text before the first `;` of `s` and, if there is a `;`, the text
/// after it.
fn split_first_semicolon(s: &str) -> (r: (&str, Option<&str>))
    ensures
        r.0@ == first_field(s@),
        r.1 is Some <==> first_index_of(s@, ';') is Some,
        r.1 matches Some(t) ==> t@ == rest_field(s@),
{
    let n = s.unicode_len();
    proof {
        lemma_index_from(s@, ';', 0);
    }
    match find_char(s, ';') {
        Some(i) => {
            let head = s.substring_char(0, i);
            let tail = s.substring_char(i + 1, n);
            assert(head@ =~= s@.take(i as int));
            assert(tail@ =~= s@.skip(i + 1));
            (head, Some(tail))
        },
        None => {
            assert(s@.subrange(0, s@.len() as int) =~= s@);
            (s, None)
        },
    }
}

/// The `key=value` pair of one parameter, both sides trimmed.
fn parse_pair(p: &str) -> (r: Option<(String, String)>)
    ensures
        (match r {
            Some(kv) => part_pair(p@) == Some((kv.0@, kv.1@)),
            None => part_pair(p@) is None,
        }),
{
    let n = p.unicode_len();
    proof {
        lemma_index_from(p@, '=', 0);
    }
    match find_char(p, '=') {
        Some(j) => {
            let k = p.substring_char(0, j);
            let v = p.substring_char(j + 1, n);
            assert(k@ =~= p@.take(j as int));
            assert(v@ =~= p@.skip(j + 1));
            Some((trim(k), trim(v)))
        },
        None => None,
    }
}

/// The `key=value` pairs of the `;`-separated parameters `s`, in order.
pub fn param_pairs(s: &str) -> (r: Vec<(String, String)>)
    ensures
        r@.len() == param_pairs_of(s@).len(),
        forall|i: int|
            0 <= i < r@.len() ==> (#[trigger] r@[i]).0@ == param_pairs_of(s@)[i].0 && r@[i].1@
                == param_pairs_of(s@)[i].1,
    decreases s@.len(),
{
    let (head, tail) = split_first_semicolon(s);
    let mut out: Vec<(String, String)> = Vec::new();
    let ghost h: Seq<(Seq<char>, Seq<char>)> = match part_pair(first_field(s@)) {
        Some(kv) => seq![kv],
        None => Seq::empty(),
    };
    match parse_pair(head) {
        Some(kv) => out.push(kv),
        None => {},
    }
    assert(out@.len() == h.len());
    assert(forall|k: int| 0 <= k < out@.len() ==> (#[trigger] out@[k]).0@ == h[k].0 && out@[k].1@ == h[k].1);
    proof {
        lemma_index_from(s@, ';', 0);
    }
    match tail {
        Some(t) => {
            let rest = param_pairs(t);
            let ghost before = out@;
            let mut i: usize = 0;
            while i < rest.len()
                invariant
                    before.len() <= 1,
                    before.len() == h.len(),
                    forall|k: int| 0 <= k < before.len() ==> (#[trigger] before[k]).0@ == h[k].0 && before[k].1@ == h[k].1,
                    out@.len() == before.len() + i,
                    i <= rest@.len(),
                    forall|k: int| 0 <= k < before.len() ==> out@[k] == before[k],
                    forall|k: int| 0 <= k < i ==> out@[before.len() + k] == rest@[k],
                decreases rest@.len() - i,
            {
                let (a, b) = &rest[i];
                out.push((a.clone(), b.clone()));
                i = i + 1;
            }
            proof {
                let spec_all = param_pairs_of(s@);
                assert(spec_all == h + param_pairs_of(t@));
                assert forall|k: int| 0 <= k < out@.len() implies (#[trigger] out@[k]).0@ == spec_all[k].0
                    && out@[k].1@ == spec_all[k].1 by {
                    if k >= before.len() {
                        assert(out@[k] == rest@[k - before.len()]);
                    } else {
                        assert(out@[k] == before[k]);
                    }
                }
            }
        },
        None => {},
    }
    out
}

/// The value of parameter `key` in `s` (see `param_value`).
pub fn find_param(s: &str, key: &str) -> (r: Option<String>)
    ensures
        opt_chars(r) == param_value(s@, key@),
    decreases s@.len(),
{
    let (head, tail) = split_first_semicolon(s);
    let here: Option<String> = match parse_pair(head) {
        Some(kv) => if str_equal(kv.0.as_str(), key) {
            Some(kv.1)
        } else {
            None
        },
        None => None,
    };
    proof {
        lemma_index_from(s@, ';', 0);
    }
    match tail {
        Some(t) => match find_param(t, key) {
            Some(v) => Some(v),
            None => here,
        },
        None => here,
    }
}

/// The exit code of an OSC 133 D (see `exit_code_param`).
fn exit_code_of_params(ps: &str) -> (r: Option<i32>)
    ensures
        r == exit_code_param(ps@),
{
    match find_param(ps, "exit_code") {
        Some(v) => parse_i32(v.as_str()),
        None => {
            let n = ps.unicode_len();
            if n > 0 && ps.get_char(0) == ';' {
                let rem = ps.substring_char(1, n);
                assert(rem@ =~= ps@.skip(1));
                let (first, _) = split_first_semicolon(rem);
                let t = trim(first);
                parse_i32(t.as_str())
            } else {
                None
            }
        },
    }
}

/// Reads the parameter of an OSC 133 (see `osc133_parse`).
pub fn parse_osc133(sub: &str) -> (r: Option<OscSequence>)
    requires
        !(sub@.len() > 0 && sub@[0] as u32 >= 0x80),
    ensures
        (match r {
            Some(q) => osc133_parse(sub@) matches Some(m) && q.scanned_as(m),
            None => osc133_parse(sub@) is None,
        }),
{
    let n = sub.unicode_len();
    if n == 0 {
        return None;
    }
    let c = sub.get_char(0);
    let ps = sub.substring_char(1, n);
    assert(ps@ =~= sub@.skip(1));
    let aid = find_param(ps, "aid");
    let json_text = match find_param(ps, "json") {
        Some(j) => Some(OscScanner::unescape_value(j.as_str())),
        None => None,
    };
    if c == 'A' {
        Some(OscSequence::PromptStart { aid, json: None, json_text })
    } else if c == 'B' {
        Some(OscSequence::CommandStart { aid })
    } else if c == 'C' {
        Some(OscSequence::CommandExecuting { aid })
    } else if c == 'D' {
        let exit_code = exit_code_of_params(ps);
        Some(OscSequence::CommandFinished { exit_code, aid, json: None, json_text })
    } else {
        None
    }
}

/// Reads an OSC payload given as text (see `osc_parse`).
pub fn parse_osc_text(content: &str) -> (r: Option<OscSequence>)
    requires
        !osc_text_faults(content@),
    ensures
        (match r {
            Some(q) => osc_parse(content@) matches Some(m) && q.scanned_as(m),
            None => osc_parse(content@) is None,
        }),
{
    proof {
        reveal_strlit("133");
        reveal_strlit("633");
        reveal_strlit("7");
        reveal_strlit("531");
    }
    let (cmd, rest) = split_first_semicolon(content);
    let sub = match rest {
        Some(t) => t,
        None => {
            return None;
        },
    };
    if str_equal(cmd, "133") {
        parse_osc133(sub)
    } else if str_equal(cmd, "633") {
        proof {
            reveal_strlit("E;");
            reveal_strlit("P;Cwd=");
        }
        let n = sub.unicode_len();
        if str_starts_with(sub, "E;") {
            let t = sub.substring_char(2, n);
            assert(t@ =~= sub@.skip(2));
            Some(OscSequence::CommandText(decode_percent(t)))
        } else if str_starts_with(sub, "P;Cwd=") {
            let t = sub.substring_char(6, n);
            assert(t@ =~= sub@.skip(6));
            let mut out = String::new();
            push_str(&mut out, t);
            Some(OscSequence::WorkingDirectory(out))
        } else {
            None
        }
    } else if str_equal(cmd, "7") {
        let mut out = String::new();
        push_str(&mut out, sub);
        Some(OscSequence::Osc7WorkingDirectory(out))
    } else if str_equal(cmd, "531") {
        let text = OscScanner::unescape_value(sub);
        match parse_json(text.as_str()) {
            Some(payload) => {
                let data_type = json_data_type(&payload);
                Some(OscSequence::JsonData { data_type, payload })
            },
            None => None,
        }
    } else {
        None
    }
}

/// The kind of a JSON payload from its `type` field (see `json_kind`).
fn json_data_type(payload: &serde_json::Value) -> (r: JsonDataType)
    ensures
        r == json_kind(json_str_at(*payload, "type"@)),
{
    proof {
        reveal_strlit("command_start");
        reveal_strlit("command_end");
        reveal_strlit("prompt_start");
        reveal_strlit("directory_changed");
    }
    match json_str_field(payload, "type") {
        Some(t) => {
            let ts = t.as_str();
            if str_equal(ts, "command_start") || str_equal(ts, "command_end") {
                JsonDataType::CommandMeta
            } else if str_equal(ts, "prompt_start") {
                JsonDataType::BlockMeta
            } else if str_equal(ts, "directory_changed") {
                JsonDataType::OutputMeta
            } else {
                JsonDataType::Custom
            }
        },
        None => JsonDataType::Custom,
    }
}


/// No payload that the scanner closes on `data` from `m` would fault when
/// read (see `osc_text_faults`).
pub open spec fn scan_safe(m: ScanModel, max: nat, data: Seq<u8>) -> bool {
    forall|k: int|
        0 <= k < osc_run(m, max, data).1.len() ==> !payload_faults(#[trigger] osc_run(m, max, data).1[k])
}

/// The payloads closed on a prefix of `data` come first among those closed
/// on all of it.
proof fn lemma_run_prefix(m: ScanModel, max: nat, data: Seq<u8>, i: int)
    requires
        0 <= i <= data.len(),
    ensures
        osc_run(m, max, data.take(i)).1.len() <= osc_run(m, max, data).1.len(),
        forall|k: int|
            0 <= k < osc_run(m, max, data.take(i)).1.len() ==> #[trigger] osc_run(m, max, data.take(i)).1[k]
                == osc_run(m, max, data).1[k],
{
    lemma_scan_split(m, max, data.take(i), data.skip(i));
    assert(data.take(i) + data.skip(i) =~= data);
}

/// Whether the payload text would fault when read (see `osc_text_faults`).
fn text_faults(content: &str) -> (r: bool)
    ensures
        r == osc_text_faults(content@),
{
    proof {
        reveal_strlit("133");
    }
    let (cmd, rest) = split_first_semicolon(content);
    match rest {
        Some(t) => str_equal(cmd, "133") && t.unicode_len() > 0 && (t.get_char(0) as u32) >= 0x80,
        None => false,
    }
}

/// Scans a byte stream for OSC sequences; the bytes are only looked at,
/// never changed.
pub struct OscScanner {
    state: ScanState,
    osc_buffer: Vec<u8>,
    max_osc_len: usize,
    buffer_full: bool,
}

impl Default for OscScanner {
    /// The scanner of `new`.
    fn default() -> (s: OscScanner)
        ensures
            s.wf(),
            s.model() == (ScanModel { state: ScanState::Ground, buffer: Seq::empty(), full: false }),
            s.max_len_spec() == 4096,
    {
        OscScanner::new()
    }
}

impl OscScanner {
    /// The scanner's state.
    pub closed spec fn model(&self) -> ScanModel {
        ScanModel { state: self.state, buffer: self.osc_buffer@, full: self.buffer_full }
    }

    /// The most bytes a payload keeps.
    pub closed spec fn max_len_spec(&self) -> nat {
        self.max_osc_len as nat
    }

    /// The payload is within its bound.
    pub closed spec fn wf(&self) -> bool {
        self.osc_buffer@.len() <= self.max_osc_len
    }

    /// A scanner in the ground state that keeps at most 4096 bytes of a
    /// payload.
    pub fn new() -> (s: OscScanner)
        ensures
            s.wf(),
            s.model() == (ScanModel { state: ScanState::Ground, buffer: Seq::empty(), full: false }),
            s.max_len_spec() == 4096,
    {
        OscScanner { state: ScanState::Ground, osc_buffer: Vec::new(), max_osc_len: 4096, buffer_full: false }
    }

    /// A scanner in the ground state that keeps at most `max_len` bytes of
    /// a payload.
    pub fn with_max_len(max_len: usize) -> (s: OscScanner)
        ensures
            s.wf(),
            s.model() == (ScanModel { state: ScanState::Ground, buffer: Seq::empty(), full: false }),
            s.max_len_spec() == max_len,
    {
        OscScanner { state: ScanState::Ground, osc_buffer: Vec::new(), max_osc_len: max_len, buffer_full: false }
    }

    /// Where the scanner stands.
    pub fn state(&self) -> (r: ScanState)
        ensures
            r == self.model().state,
    {
        self.state
    }

    /// Whether the current (or last) payload overflowed the bound.
    pub fn buffer_full(&self) -> (r: bool)
        ensures
            r == self.model().full,
    {
        self.buffer_full
    }

    /// The number of payload bytes held.
    pub fn buffer_len(&self) -> (r: usize)
        ensures
            r == self.model().buffer.len(),
    {
        self.osc_buffer.len()
    }

    /// The most bytes a payload keeps.
    pub fn max_len(&self) -> (r: usize)
        ensures
            r == self.max_len_spec(),
    {
        self.max_osc_len
    }

    /// Undoes the escapes of the shell scripts (see `unescaped`).
    #[verifier::spinoff_prover]
    #[verifier::rlimit(30)]
    pub fn unescape_value(s: &str) -> (r: String)
        ensures
            r@ == unescaped(s@),
    {
        let n = s.unicode_len();
        let mut out = String::new();
        let mut i: usize = 0;
        proof {
            assert(s@.skip(0) =~= s@);
        }
        while i < n
            invariant
                n == s@.len(),
                i <= n,
                out@ + unescaped(s@.skip(i as int)) == unescaped(s@),
            decreases n - i,
        {
            let ghost rest = s@.skip(i as int);
            let c = s.get_char(i);
            let next: char = if n - i >= 2 { s.get_char(i + 1) } else { ' ' };
            if c == '\\' && n - i >= 2 && next == 'x' {
                let mut decoded: Option<u8> = None;
                if n - i >= 4 {
                    decoded = hex_pair_value(s.get_char(i + 2), s.get_char(i + 3));
                }
                match decoded {
                    Some(b) => {
                        push_char(&mut out, b as char);
                        proof {
                            assert(rest.skip(4) =~= s@.skip(i + 4));
                            assert(unescaped(rest) == seq![(b as char)] + unescaped(rest.skip(4)));
                            assert(out@ + unescaped(s@.skip(i + 4)) =~= unescaped(s@));
                        }
                        i = i + 4;
                    },
                    None => {
                        let k: usize = if n - i >= 4 { 4 } else { n - i };
                        let mut j: usize = 0;
                        let ghost before = out@;
                        while j < k
                            invariant
                                n == s@.len(),
                                i + k <= n,
                                j <= k,
                                out@ == before + s@.subrange(i as int, i + j),
                            decreases k - j,
                        {
                            push_char(&mut out, s.get_char(i + j));
                            assert(s@.subrange(i as int, i + j + 1) =~= s@.subrange(i as int, i + j).push(s@[i + j]));
                            j = j + 1;
                        }
                        proof {
                            assert(rest.take(k as int) =~= s@.subrange(i as int, i + k));
                            assert(rest.skip(k as int) =~= s@.skip(i + k));
                            assert(unescaped(rest) == rest.take(k as int) + unescaped(rest.skip(k as int)));
                            assert(out@ + unescaped(s@.skip(i + k)) =~= before + unescaped(rest));
                        }
                        i = i + k;
                    },
                }
            } else if c == '\\' && n - i >= 2 && (next == 'n' || next == '\\') {
                let d: char = if next == 'n' { '\n' } else { '\\' };
                push_char(&mut out, d);
                proof {
                    assert(rest.skip(2) =~= s@.skip(i + 2));
                    assert(unescaped(rest) == seq![d] + unescaped(rest.skip(2)));
                    assert(out@ + unescaped(s@.skip(i + 2)) =~= unescaped(s@));
                }
                i = i + 2;
            } else {
                push_char(&mut out, c);
                proof {
                    assert(rest.skip(1) =~= s@.skip(i + 1));
                    assert(unescaped(rest) == seq![c] + unescaped(rest.skip(1)));
                    assert(out@ + unescaped(s@.skip(i + 1)) =~= unescaped(s@));
                }
                i = i + 1;
            }
        }
        proof {
            assert(s@.skip(n as int) =~= Seq::<char>::empty());
            assert(out@ + Seq::<char>::empty() =~= out@);
        }
        out
    }

    /// The parameters as a map (see `param_pairs_of`), inserted in order: a
    /// key given twice keeps its last value.
    pub fn parse_params(params: &str) -> (r: HashMap<String, String>)
        ensures
            obeys_key_model::<String>() ==> exists|es: Seq<(String, String)>|
                #[trigger] pairs_read_as(es, param_pairs_of(params@)) && r@ == inserted_all(
                    Map::empty(),
                    es,
                ),
    {
        let pairs = param_pairs(params);
        let mut map: HashMap<String, String> = HashMap::new();
        let mut i: usize = 0;
        assert(pairs@.take(0) =~= Seq::<(String, String)>::empty());
        while i < pairs.len()
            invariant
                i <= pairs@.len(),
                obeys_key_model::<String>() ==> map@ == inserted_all(Map::empty(), pairs@.take(i as int)),
            decreases pairs@.len() - i,
        {
            let (k, v) = &pairs[i];
            proof {
                assert(pairs@.take(i + 1).drop_last() =~= pairs@.take(i as int));
            }
            map.insert(k.clone(), v.clone());
            i = i + 1;
        }
        assert(pairs@.take(i as int) =~= pairs@);
        assert(pairs_read_as(pairs@, param_pairs_of(params@)));
        map
    }

    /// Reads a closed payload (see `payload_parse`).
    fn parse_payload(p: &[u8]) -> (r: Option<OscSequence>)
        requires
            !payload_faults(p@),
        ensures
            (match r {
                Some(q) => payload_parse(p@) matches Some(m) && q.scanned_as(m),
                None => payload_parse(p@) is None,
            }),
    {
        if p.len() == 0 {
            return None;
        }
        let content = decode_lossy(p);
        parse_osc_text(content.as_str())
    }

    /// Feeds `data` to the scanner and gives back the sequences whose
    /// payloads it closed, in order: the scanner moves as `osc_run` says,
    /// and each closed payload that means something (`payload_parse`) gives
    /// one sequence. Bytes of a payload beyond the bound are dropped and
    /// the payload marked full. The stream may be cut anywhere between
    /// calls (see `lemma_scan_split`).
    pub fn scan(&mut self, data: &[u8]) -> (r: Vec<OscSequence>)
        requires
            old(self).wf(),
            scan_safe(old(self).model(), old(self).max_len_spec(), data@),
        ensures
            final(self).wf(),
            final(self).max_len_spec() == old(self).max_len_spec(),
            final(self).model() == osc_run(old(self).model(), old(self).max_len_spec(), data@).0,
            r@.len() == parse_all(osc_run(old(self).model(), old(self).max_len_spec(), data@).1).len(),
            forall|k: int|
                0 <= k < r@.len() ==> (#[trigger] r@[k]).scanned_as(
                    parse_all(osc_run(old(self).model(), old(self).max_len_spec(), data@).1)[k],
                ),
    {
        let ghost m0 = self.model();
        let ghost max = self.max_len_spec();
        let mut out: Vec<OscSequence> = Vec::new();
        let mut i: usize = 0;
        assert(data@.take(0) =~= Seq::<u8>::empty());
        while i < data.len()
            invariant
                i <= data@.len(),
                self.wf(),
                self.max_len_spec() == max,
                scan_safe(m0, max, data@),
                self.model() == osc_run(m0, max, data@.take(i as int)).0,
                out@.len() == parse_all(osc_run(m0, max, data@.take(i as int)).1).len(),
                forall|k: int|
                    0 <= k < out@.len() ==> (#[trigger] out@[k]).scanned_as(
                        parse_all(osc_run(m0, max, data@.take(i as int)).1)[k],
                    ),
            decreases data@.len() - i,
        {
            let ghost prev = osc_run(m0, max, data@.take(i as int));
            let b = data[i];
            proof {
                assert(data@.take(i + 1).drop_last() =~= data@.take(i as int));
                assert(data@.take(i + 1).last() == b);
            }
            let done = self.step(b);
            match done {
                Some(p) => {
                    proof {
                        let cur = osc_run(m0, max, data@.take(i + 1));
                        assert(cur.1 == prev.1.push(p@));
                        lemma_run_prefix(m0, max, data@, i + 1);
                        assert(cur.1[cur.1.len() - 1] == p@);
                        assert(osc_run(m0, max, data@).1[cur.1.len() - 1] == p@);
                        assert(!payload_faults(p@));
                        assert(parse_all(cur.1) == match payload_parse(p@) {
                            Some(m) => parse_all(prev.1).push(m),
                            None => parse_all(prev.1),
                        }) by {
                            assert(cur.1.drop_last() =~= prev.1);
                        }
                    }
                    match Self::parse_payload(p.as_slice()) {
                        Some(q) => {
                            out.push(q);
                        },
                        None => {},
                    }
                },
                None => {},
            }
            i = i + 1;
        }
        assert(data@.take(data@.len() as int) =~= data@);
        out
    }

    /// Whether `scan` may be called with `data`: no payload it would close
    /// faults when read (see `scan_safe`).
    pub fn scan_is_safe(&self, data: &[u8]) -> (r: bool)
        requires
            self.wf(),
        ensures
            r == scan_safe(self.model(), self.max_len_spec(), data@),
    {
        let ghost m0 = self.model();
        let ghost max = self.max_len_spec();
        let mut copy = OscScanner {
            state: self.state,
            osc_buffer: Vec::new(),
            max_osc_len: self.max_osc_len,
            buffer_full: self.buffer_full,
        };
        let mut j: usize = 0;
        while j < self.osc_buffer.len()
            invariant
                j <= self.osc_buffer@.len(),
                copy.osc_buffer@ == self.osc_buffer@.take(j as int),
                copy.state == self.state,
                copy.max_osc_len == self.max_osc_len,
                copy.buffer_full == self.buffer_full,
            decreases self.osc_buffer@.len() - j,
        {
            copy.osc_buffer.push(self.osc_buffer[j]);
            assert(self.osc_buffer@.take(j + 1) =~= self.osc_buffer@.take(j as int).push(self.osc_buffer@[j as int]));
            j = j + 1;
        }
        assert(self.osc_buffer@.take(self.osc_buffer@.len() as int) =~= self.osc_buffer@);
        let mut i: usize = 0;
        assert(data@.take(0) =~= Seq::<u8>::empty());
        while i < data.len()
            invariant
                i <= data@.len(),
                m0 == self.model(),
                max == self.max_len_spec(),
                copy.wf(),
                copy.max_len_spec() == max,
                copy.model() == osc_run(m0, max, data@.take(i as int)).0,
                forall|k: int|
                    0 <= k < osc_run(m0, max, data@.take(i as int)).1.len() ==> !payload_faults(
                        #[trigger] osc_run(m0, max, data@.take(i as int)).1[k],
                    ),
            decreases data@.len() - i,
        {
            let ghost prev = osc_run(m0, max, data@.take(i as int));
            let b = data[i];
            proof {
                assert(data@.take(i + 1).drop_last() =~= data@.take(i as int));
                assert(data@.take(i + 1).last() == b);
            }
            let done = copy.step(b);
            match done {
                Some(p) => {
                    let faults = p.len() > 0 && text_faults(decode_lossy(p.as_slice()).as_str());
                    proof {
                        let cur = osc_run(m0, max, data@.take(i + 1));
                        assert(cur.1 == prev.1.push(p@));
                        lemma_run_prefix(m0, max, data@, i + 1);
                        assert(cur.1[cur.1.len() - 1] == p@);
                        assert(osc_run(m0, max, data@).1[cur.1.len() - 1] == p@);
                        assert(faults == payload_faults(p@));
                    }
                    if faults {
                        proof {
                            let idx = osc_run(m0, max, data@.take(i + 1)).1.len() - 1;
                            assert(0 <= idx < osc_run(m0, max, data@).1.len());
                            assert(payload_faults(osc_run(m0, max, data@).1[idx]));
                        }
                        return false;
                    }
                },
                None => {},
            }
            i = i + 1;
        }
        assert(data@.take(data@.len() as int) =~= data@);
        true
    }

    /// Adds `b` to the payload unless it is full (see `collect_one`).
    fn collect(&mut self, b: u8)
        requires
            old(self).wf(),
        ensures
            final(self).wf(),
            final(self).max_len_spec() == old(self).max_len_spec(),
            final(self).model() == collect_one(old(self).model(), old(self).max_len_spec(), b),
    {
        if !self.buffer_full {
            if self.osc_buffer.len() < self.max_osc_len {
                self.osc_buffer.push(b);
            } else {
                self.buffer_full = true;
            }
        }
    }

    /// One step on byte `b` (see `osc_step`); gives back the payload that
    /// the byte closed.
    fn step(&mut self, b: u8) -> (r: Option<Vec<u8>>)
        requires
            old(self).wf(),
        ensures
            final(self).wf(),
            final(self).max_len_spec() == old(self).max_len_spec(),
            final(self).model() == osc_step(old(self).model(), old(self).max_len_spec(), b).0,
            (match r {
                Some(p) => osc_step(old(self).model(), old(self).max_len_spec(), b).1 == Some(p@),
                None => osc_step(old(self).model(), old(self).max_len_spec(), b).1 is None,
            }),
    {
        match self.state {
            ScanState::Ground => {
                if b == 0x1b {
                    self.state = ScanState::Escape;
                }
                None
            },
            ScanState::Escape => {
                if b == 0x5d {
                    self.state = ScanState::OscStart;
                    self.osc_buffer = Vec::new();
                    self.buffer_full = false;
                } else if b == 0x1b {
                } else {
                    self.state = ScanState::Ground;
                }
                None
            },
            ScanState::OscStart => {
                self.state = ScanState::OscCollect;
                self.collect(b);
                None
            },
            ScanState::OscCollect => {
                if b == 0x07 {
                    let mut done: Vec<u8> = Vec::new();
                    std::mem::swap(&mut done, &mut self.osc_buffer);
                    self.state = ScanState::Ground;
                    Some(done)
                } else if b == 0x1b {
                    self.state = ScanState::OscEscape;
                    None
                } else {
                    self.collect(b);
                    None
                }
            },
            ScanState::OscEscape => {
                if b == 0x5c {
                    let mut done: Vec<u8> = Vec::new();
                    std::mem::swap(&mut done, &mut self.osc_buffer);
                    self.state = ScanState::Ground;
                    Some(done)
                } else {
                    self.state = ScanState::OscCollect;
                    if !self.buffer_full {
                        if self.max_osc_len >= 2 && self.osc_buffer.len() <= self.max_osc_len - 2 {
                            self.osc_buffer.push(0x1b);
                            self.osc_buffer.push(b);
                        } else {
                            self.buffer_full = true;
                        }
                    }
                    None
                }
            },
        }
    }
}

} // verus!
