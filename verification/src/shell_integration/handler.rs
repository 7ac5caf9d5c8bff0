//! The shell integration handler: it reads OSC 133 (FinalTerm), OSC 633
//! (VS Code) and OSC 7 (working directory) sequences, keeps the command
//! zones up to date and queues the events they mean.
use vstd::prelude::*;

use super::event::ShellEvent;
use super::zone::{
    zones_command_set, zones_directory_set, zones_finished, zones_started, zones_transitioned, CommandState,
    ZoneId, ZoneManager,
};
use crate::text::{
    first_index_of, find_char, has_prefix, lemma_index_from, parse_i32, parsed_i32, push_char, skip_chars, str_starts_with, trim,
    trimmed,
};
use vstd::string::StringSliceAdditionalSpecFns;
use vstd::utf8::{decode_utf8, valid_utf8};

verus! {

/// Calls `str::from_utf8`, which accepts exactly the valid UTF-8 byte
/// sequences and gives back the text with those bytes.
#[verifier::external_body]
fn str_from_utf8(bytes: &[u8]) -> (r: Option<&str>)
    ensures
        r is Some <==> valid_utf8(bytes@),
        r matches Some(s) ==> s.spec_bytes() == bytes@,
{
    std::str::from_utf8(bytes).ok()
}

/// The part of `s` before its first `;` (all of it without one).
pub open spec fn first_field(s: Seq<char>) -> Seq<char> {
    match first_index_of(s, ';') {
        Some(i) => s.take(i),
        None => s,
    }
}

/// The part of `s` after its first `;` (empty without one).
pub open spec fn rest_field(s: Seq<char>) -> Seq<char> {
    match first_index_of(s, ';') {
        Some(i) => s.skip(i + 1),
        None => Seq::empty(),
    }
}

/// The exit code in the `;`-separated fields of `s`: the value of the first
/// field `err=N` whose `N` parses as an `i32`, else 0.
pub open spec fn err_field_code(s: Seq<char>) -> i32
    decreases s.len(),
{
    let part = first_field(s);
    if has_prefix(part, seq!['e', 'r', 'r', '=']) && parsed_i32(part.skip(4)) is Some {
        parsed_i32(part.skip(4))->0
    } else {
        match first_index_of(s, ';') {
            Some(i) => {
                proof {
                    lemma_index_from(s, ';', 0);
                }
                err_field_code(s.skip(i + 1))
            },
            None => 0,
        }
    }
}

/// The exit code of an OSC 133 D: 0 without parameters, the parameters
/// themselves when they parse as an `i32` (white space trimmed), else an
/// `err=N` field, else 0.
pub open spec fn exit_code_of(params: Seq<char>) -> i32 {
    if params.len() == 0 {
        0
    } else {
        match parsed_i32(trimmed(params)) {
            Some(c) => c,
            None => err_field_code(params),
        }
    }
}

/// The value of a hexadecimal digit.
pub open spec fn hex_digit(c: char) -> Option<u8> {
    if '0' <= c <= '9' {
        Some(((c as u32) - ('0' as u32)) as u8)
    } else if 'a' <= c <= 'f' {
        Some(((c as u32) - ('a' as u32) + 10) as u8)
    } else if 'A' <= c <= 'F' {
        Some(((c as u32) - ('A' as u32) + 10) as u8)
    } else {
        None
    }
}

/// What `u8::from_str_radix(.., 16)` gives for two characters: two hex
/// digits, or `+` and one hex digit.
pub open spec fn hex_pair(a: char, b: char) -> Option<u8> {
    match (hex_digit(a), hex_digit(b)) {
        (Some(x), Some(y)) => Some((x * 16 + y) as u8),
        (None, Some(y)) => if a == '+' {
            Some(y)
        } else {
            None
        },
        _ => None,
    }
}

/// `s` with each `%` followed by two characters that read as a byte
/// replaced by the character of that byte's value; any other `%` is kept
/// with the (up to two) characters after it.
pub open spec fn percent_decoded(s: Seq<char>) -> Seq<char>
    decreases s.len(),
{
    if s.len() == 0 {
        Seq::empty()
    } else if s[0] == '%' {
        if s.len() >= 3 && hex_pair(s[1], s[2]) is Some {
            seq![(hex_pair(s[1], s[2])->0) as char] + percent_decoded(s.skip(3))
        } else {
            let k: int = if s.len() >= 3 { 3 } else { s.len() as int };
            s.take(k) + percent_decoded(s.skip(k))
        }
    } else {
        seq![s[0]] + percent_decoded(s.skip(1))
    }
}

/// The directory of an OSC 7: after `file://` the host is dropped up to the
/// first `/`; then percent-decoded.
pub open spec fn osc7_path(data: Seq<char>) -> Seq<char> {
    let p = if has_prefix(data, seq!['f', 'i', 'l', 'e', ':', '/', '/']) {
        let rest = data.skip(7);
        match first_index_of(rest, '/') {
            Some(i) => rest.skip(i),
            None => rest,
        }
    } else {
        data
    };
    percent_decoded(p)
}

/// What a shell integration sequence asks for.
pub enum OscRequest {
    /// A prompt starts.
    Prompt,
    /// The command line starts.
    CommandStart,
    /// The command starts to run.
    Executing,
    /// The command ended with this exit code.
    Finished(i32),
    /// The command text.
    Command(Seq<char>),
    /// The working directory, as a property.
    Cwd(Seq<char>),
    /// Another property, accepted and ignored.
    Property,
    /// The working directory changed.
    WorkingDir(Seq<char>),
    /// Not a shell integration sequence.
    Unknown,
}

/// The request of an OSC 133 command with its parameters.
pub open spec fn request_133(cmd: Seq<char>, params: Seq<char>) -> OscRequest {
    if cmd == seq!['A'] {
        OscRequest::Prompt
    } else if cmd == seq!['B'] {
        OscRequest::CommandStart
    } else if cmd == seq!['C'] {
        OscRequest::Executing
    } else if cmd == seq!['D'] {
        OscRequest::Finished(exit_code_of(params))
    } else {
        OscRequest::Unknown
    }
}

/// The request of an OSC 633 body.
pub open spec fn request_633(data: Seq<char>) -> OscRequest {
    let cmd = first_field(data);
    let params = rest_field(data);
    if cmd == seq!['A'] || cmd == seq!['B'] || cmd == seq!['C'] {
        request_133(cmd, Seq::empty())
    } else if cmd == seq!['D'] {
        request_133(cmd, params)
    } else if cmd == seq!['E'] {
        OscRequest::Command(percent_decoded(params))
    } else if cmd == seq!['P'] {
        if has_prefix(params, seq!['C', 'w', 'd', '=']) {
            OscRequest::Cwd(params.skip(4))
        } else {
            OscRequest::Property
        }
    } else {
        OscRequest::Unknown
    }
}

/// The request of an OSC body.
pub open spec fn osc_request(s: Seq<char>) -> OscRequest {
    if has_prefix(s, seq!['1', '3', '3', ';']) {
        request_133(first_field(s.skip(4)), rest_field(s.skip(4)))
    } else if has_prefix(s, seq!['6', '3', '3', ';']) {
        request_633(s.skip(4))
    } else if has_prefix(s, seq!['7', ';']) {
        OscRequest::WorkingDir(osc7_path(s.skip(2)))
    } else {
        OscRequest::Unknown
    }
}

/// `new` is `old` with events `added` queued after the old ones.
pub open spec fn events_added(old: Seq<ShellEvent>, new: Seq<ShellEvent>, added: Seq<ShellEvent>) -> bool {
    new == old + added
}

/// The handler.
#[derive(Debug)]
pub struct ShellIntegrationHandler {
    zone_manager: ZoneManager,
    pending_events: Vec<ShellEvent>,
    current_line: usize,
}

impl ShellIntegrationHandler {
    /// The zones.
    pub closed spec fn zones(&self) -> ZoneManager {
        self.zone_manager
    }

    /// The events not taken yet.
    pub closed spec fn events(&self) -> Seq<ShellEvent> {
        self.pending_events@
    }

    /// The cursor line that events are reported at.
    pub closed spec fn line(&self) -> usize {
        self.current_line
    }

    /// Internal consistency: the zones are well formed.
    pub open spec fn wf(&self) -> bool {
        self.zones().wf()
    }
}

/// Handling `req` took the handler from `old` to `new` (see `handle_osc`).
pub open spec fn handled(old: ShellIntegrationHandler, new: ShellIntegrationHandler, req: OscRequest) -> bool {
    let line = old.line();
    let zo = old.zones();
    let zn = new.zones();
    &&& new.line() == line
    &&& match req {
        OscRequest::Prompt => {
            let id = ZoneId::from_view(zo.next_view());
            &&& zones_started(zo, zn, CommandState::PromptStart, line, id)
            &&& events_added(old.events(), new.events(), seq![ShellEvent::PromptStarted { zone_id: id, line }])
        },
        OscRequest::CommandStart => {
            &&& zones_transitioned(zo, zn, CommandState::CommandStart, line)
            &&& events_added(
                old.events(),
                new.events(),
                match zn.active_view() {
                    Some(a) => seq![ShellEvent::CommandStarted { zone_id: zn.zones_view()[a as int].id, line }],
                    None => Seq::empty(),
                },
            )
        },
        OscRequest::Executing => {
            &&& zones_transitioned(zo, zn, CommandState::CommandExecuting, line)
            &&& events_added(
                old.events(),
                new.events(),
                match zn.active_view() {
                    Some(a) => seq![ShellEvent::CommandExecuting { zone_id: zn.zones_view()[a as int].id, line }],
                    None => Seq::empty(),
                },
            )
        },
        OscRequest::Finished(code) => {
            &&& zones_finished(zo, zn, line, code)
            &&& events_added(
                old.events(),
                new.events(),
                match zo.active_view() {
                    Some(a) => seq![
                        ShellEvent::CommandFinished { zone_id: zo.zones_view()[a as int].id, line, exit_code: code },
                    ],
                    None => Seq::empty(),
                },
            )
        },
        OscRequest::Command(cmd) => {
            &&& zones_command_set(zo, zn, cmd)
            &&& match zn.active_view() {
                Some(a) => {
                    &&& new.events().len() == old.events().len() + 1
                    &&& new.events().drop_last() == old.events()
                    &&& new.events().last() matches ShellEvent::CommandCaptured { zone_id, command }
                        && zone_id == zn.zones_view()[a as int].id && command@ == cmd
                },
                None => new.events() == old.events(),
            }
        },
        OscRequest::Cwd(dir) => zones_directory_set(zo, zn, dir) && new.events() == old.events(),
        OscRequest::Property => zn == zo && new.events() == old.events(),
        OscRequest::WorkingDir(path) => {
            &&& zones_directory_set(zo, zn, path)
            &&& new.events().len() == old.events().len() + 1
            &&& new.events().drop_last() == old.events()
            &&& new.events().last() matches ShellEvent::WorkingDirectoryChanged { path: p } && p@ == path
        },
        OscRequest::Unknown => zn == zo && new.events() == old.events(),
    }
}

impl Default for ShellIntegrationHandler {
    fn default() -> (h: ShellIntegrationHandler)
        ensures
            h.wf(),
            h.zones().zones_view().len() == 0,
            h.zones().active_view() is None,
            h.zones().next_view() == 0,
            h.events().len() == 0,
            h.line() == 0,
    {
        ShellIntegrationHandler::new()
    }
}

/// `s` is the one character `c`.
fn is_char_str(s: &str, c: char) -> (r: bool)
    ensures
        r == (s@ == seq![c]),
{
    let r = s.unicode_len() == 1 && s.get_char(0) == c;
    proof {
        if s@.len() == 1 && s@[0] == c {
            assert(s@ =~= seq![c]);
        }
    }
    r
}

/// The fields of `s` before and after its first `;`.
fn split_field(s: &str) -> (r: (&str, &str))
    ensures
        r.0@ == first_field(s@),
        r.1@ == rest_field(s@),
{
    let n = s.unicode_len();
    match find_char(s, ';') {
        Some(i) => {
            let a = s.substring_char(0, i);
            let b = s.substring_char(i + 1, n);
            assert(a@ =~= s@.take(i as int));
            assert(b@ =~= s@.skip(i + 1));
            (a, b)
        },
        None => {
            let b = s.substring_char(n, n);
            assert(b@ =~= Seq::<char>::empty());
            (s, b)
        },
    }
}

/// The value of a hexadecimal digit.
fn hex_digit_value(c: char) -> (r: Option<u8>)
    ensures
        r == hex_digit(c),
{
    if '0' <= c && c <= '9' {
        Some((c as u32 - '0' as u32) as u8)
    } else if 'a' <= c && c <= 'f' {
        Some((c as u32 - 'a' as u32 + 10) as u8)
    } else if 'A' <= c && c <= 'F' {
        Some((c as u32 - 'A' as u32 + 10) as u8)
    } else {
        None
    }
}

/// The byte two characters read as in base 16 (`u8::from_str_radix`).
pub(crate) fn hex_pair_value(a: char, b: char) -> (r: Option<u8>)
    ensures
        r == hex_pair(a, b),
{
    match (hex_digit_value(a), hex_digit_value(b)) {
        (Some(x), Some(y)) => Some(x * 16 + y),
        (None, Some(y)) => {
            if a == '+' {
                Some(y)
            } else {
                None
            }
        },
        _ => None,
    }
}

/// Percent-decodes `s` (see `percent_decoded`).
pub fn decode_percent(s: &str) -> (r: String)
    ensures
        r@ == percent_decoded(s@),
{
    let n = s.unicode_len();
    let mut out = String::new();
    let mut i: usize = 0;
    proof {
        assert(s@.skip(0) =~= s@);
    }
    while i < n
        invariant
            n == s@.len(),
            i <= n,
            out@ + percent_decoded(s@.skip(i as int)) == percent_decoded(s@),
        decreases n - i,
    {
        let ghost rest = s@.skip(i as int);
        let c = s.get_char(i);
        if c == '%' {
            let mut decoded: Option<u8> = None;
            if n - i >= 3 {
                decoded = hex_pair_value(s.get_char(i + 1), s.get_char(i + 2));
            }
            match decoded {
                Some(b) => {
                    push_char(&mut out, b as char);
                    proof {
                        assert(rest.skip(3) =~= s@.skip(i + 3));
                        assert(out@ + percent_decoded(s@.skip(i + 3)) =~= percent_decoded(s@)) by {
                            assert(percent_decoded(rest) == seq![(b as char)] + percent_decoded(rest.skip(3)));
                        }
                    }
                    i = i + 3;
                },
                None => {
                    let k: usize = if n - i >= 3 { 3 } else { n - i };
                    let mut j: usize = 0;
                    let ghost before = out@;
                    while j < k
                        invariant
                            n == s@.len(),
                            i + k <= n,
                            j <= k,
                            out@ == before + s@.subrange(i as int, i + j),
                        decreases k - j,
                    {
                        push_char(&mut out, s.get_char(i + j));
                        assert(s@.subrange(i as int, i + j + 1) =~= s@.subrange(i as int, i + j).push(s@[i + j]));
                        j = j + 1;
                    }
                    proof {
                        assert(rest.take(k as int) =~= s@.subrange(i as int, i + k));
                        assert(rest.skip(k as int) =~= s@.skip(i + k));
                        assert(percent_decoded(rest) == rest.take(k as int) + percent_decoded(rest.skip(k as int)));
                        assert(out@ + percent_decoded(s@.skip(i + k)) =~= before + percent_decoded(rest));
                    }
                    i = i + k;
                },
            }
        } else {
            push_char(&mut out, c);
            proof {
                assert(rest.skip(1) =~= s@.skip(i + 1));
                assert(percent_decoded(rest) == seq![c] + percent_decoded(rest.skip(1)));
                assert(out@ + percent_decoded(s@.skip(i + 1)) =~= percent_decoded(s@));
            }
            i = i + 1;
        }
    }
    proof {
        assert(s@.skip(n as int) =~= Seq::<char>::empty());
        assert(out@ + Seq::<char>::empty() =~= out@);
    }
    out
}

/// The exit code in the `;`-separated fields of `s` (see `err_field_code`).
fn err_code_in_fields(s: &str) -> (r: i32)
    ensures
        r == err_field_code(s@),
    decreases s@.len(),
{
    let n = s.unicode_len();
    let (part, rest) = split_field(s);
    let err = "err=";
    proof {
        reveal_strlit("err=");
        assert(err@ =~= seq!['e', 'r', 'r', '=']);
    }
    if str_starts_with(part, err) {
        let value = skip_chars(part, 4);
        match parse_i32(value) {
            Some(code) => {
                return code;
            },
            None => {},
        }
    }
    match find_char(s, ';') {
        Some(i) => {
            assert(rest@ == s@.skip(i + 1));
            err_code_in_fields(rest)
        },
        None => 0,
    }
}

impl ShellIntegrationHandler {
    /// A handler with no zones and no events, at line 0.
    pub fn new() -> (h: ShellIntegrationHandler)
        ensures
            h.wf(),
            h.zones().zones_view().len() == 0,
            h.zones().active_view() is None,
            h.zones().next_view() == 0,
            h.events().len() == 0,
            h.line() == 0,
    {
        ShellIntegrationHandler { zone_manager: ZoneManager::new(), pending_events: Vec::new(), current_line: 0 }
    }

    /// Sets the cursor line that events are reported at.
    pub fn set_current_line(&mut self, line: usize)
        ensures
            final(self).line() == line,
            final(self).zones() == old(self).zones(),
            final(self).events() == old(self).events(),
    {
        self.current_line = line;
    }

    /// The zones.
    pub fn zone_manager(&self) -> (z: &ZoneManager)
        ensures
            *z == self.zones(),
    {
        &self.zone_manager
    }

    /// The zones, for update in place.
    pub fn zone_manager_mut(&mut self) -> (z: &mut ZoneManager)
        ensures
            *z == old(self).zones(),
            final(self).zones() == *final(z),
            final(self).events() == old(self).events(),
            final(self).line() == old(self).line(),
    {
        &mut self.zone_manager
    }

    /// Hands over the queued events, oldest first, and empties the queue.
    pub fn take_events(&mut self) -> (events: Vec<ShellEvent>)
        ensures
            events@ == old(self).events(),
            final(self).events().len() == 0,
            final(self).zones() == old(self).zones(),
            final(self).line() == old(self).line(),
    {
        let mut events: Vec<ShellEvent> = Vec::new();
        core::mem::swap(&mut events, &mut self.pending_events);
        events
    }

    /// The exit code of an OSC 133 D from its parameters (see `exit_code_of`).
    pub fn parse_exit_code(&self, params: &str) -> (code: i32)
        ensures
            code == exit_code_of(params@),
    {
        if params.unicode_len() == 0 {
            return 0;
        }
        let trimmed_params = trim(params);
        match parse_i32(trimmed_params.as_str()) {
            Some(code) => code,
            None => err_code_in_fields(params),
        }
    }

    /// The command text of an OSC 633 E: its parameters percent-decoded.
    fn decode_command(&self, encoded: &str) -> (r: String)
        ensures
            r@ == percent_decoded(encoded@),
    {
        decode_percent(encoded)
    }

    /// Carries out the OSC 133 command `cmd` with parameters `params`.
    fn handle_133_command(&mut self, cmd: &str, params: &str) -> (r: bool)
        requires
            old(self).wf(),
            request_133(cmd@, params@) is Prompt ==> old(self).zones().next_view() < u64::MAX,
        ensures
            final(self).wf(),
            handled(*old(self), *final(self), request_133(cmd@, params@)),
            r == !(request_133(cmd@, params@) is Unknown),
    {
        let line = self.current_line;
        if is_char_str(cmd, 'A') {
            let zone_id = self.zone_manager.start_zone(CommandState::PromptStart, line);
            proof {
                ZoneId::lemma_view_injective(zone_id, zone_id);
            }
            let ev = ShellEvent::PromptStarted { zone_id, line };
            self.pending_events.push(ev);
            assert(self.pending_events@ =~= old(self).pending_events@ + seq![ev]);
            true
        } else if is_char_str(cmd, 'B') {
            self.zone_manager.transition_state(CommandState::CommandStart, line);
            match self.zone_manager.active_zone() {
                Some(zone) => {
                    let zone_id = zone.id;
                    let ev = ShellEvent::CommandStarted { zone_id, line };
                    self.pending_events.push(ev);
                    assert(self.pending_events@ =~= old(self).pending_events@ + seq![ev]);
                },
                None => {
                    assert(self.pending_events@ =~= old(self).pending_events@ + Seq::<ShellEvent>::empty());
                },
            }
            true
        } else if is_char_str(cmd, 'C') {
            self.zone_manager.transition_state(CommandState::CommandExecuting, line);
            match self.zone_manager.active_zone() {
                Some(zone) => {
                    let zone_id = zone.id;
                    let ev = ShellEvent::CommandExecuting { zone_id, line };
                    self.pending_events.push(ev);
                    assert(self.pending_events@ =~= old(self).pending_events@ + seq![ev]);
                },
                None => {
                    assert(self.pending_events@ =~= old(self).pending_events@ + Seq::<ShellEvent>::empty());
                },
            }
            true
        } else if is_char_str(cmd, 'D') {
            let exit_code = self.parse_exit_code(params);
            let zone_id = match self.zone_manager.active_zone() {
                Some(z) => Some(z.id),
                None => None,
            };
            self.zone_manager.finish_zone(line, exit_code);
            match zone_id {
                Some(id) => {
                    let ev = ShellEvent::CommandFinished { zone_id: id, line, exit_code };
                    self.pending_events.push(ev);
                    assert(self.pending_events@ =~= old(self).pending_events@ + seq![ev]);
                },
                None => {
                    assert(self.pending_events@ =~= old(self).pending_events@ + Seq::<ShellEvent>::empty());
                },
            }
            true
        } else {
            false
        }
    }

    /// Carries out an OSC 133 body.
    fn handle_osc_133(&mut self, data: &str) -> (r: bool)
        requires
            old(self).wf(),
            request_133(first_field(data@), rest_field(data@)) is Prompt ==> old(self).zones().next_view()
                < u64::MAX,
        ensures
            final(self).wf(),
            handled(*old(self), *final(self), request_133(first_field(data@), rest_field(data@))),
            r == !(request_133(first_field(data@), rest_field(data@)) is Unknown),
    {
        let (cmd, params) = split_field(data);
        self.handle_133_command(cmd, params)
    }

    /// Carries out an OSC 633 body.
    fn handle_osc_633(&mut self, data: &str) -> (r: bool)
        requires
            old(self).wf(),
            request_633(data@) is Prompt ==> old(self).zones().next_view() < u64::MAX,
        ensures
            final(self).wf(),
            handled(*old(self), *final(self), request_633(data@)),
            r == !(request_633(data@) is Unknown),
    {
        let (cmd, params) = split_field(data);
        if is_char_str(cmd, 'A') || is_char_str(cmd, 'B') || is_char_str(cmd, 'C') {
            let none = skip_chars(params, params.unicode_len());
            assert(none@ =~= Seq::<char>::empty());
            self.handle_133_command(cmd, none)
        } else if is_char_str(cmd, 'D') {
            self.handle_133_command(cmd, params)
        } else if is_char_str(cmd, 'E') {
            let command = self.decode_command(params);
            let captured = command.clone();
            self.zone_manager.set_command(command);
            match self.zone_manager.active_zone() {
                Some(zone) => {
                    let zone_id = zone.id;
                    self.pending_events.push(ShellEvent::CommandCaptured { zone_id, command: captured });
                    assert(self.pending_events@.drop_last() =~= old(self).pending_events@);
                },
                None => {},
            }
            true
        } else if is_char_str(cmd, 'P') {
            let cwd = "Cwd=";
            proof {
                reveal_strlit("Cwd=");
                assert(cwd@ =~= seq!['C', 'w', 'd', '=']);
            }
            if str_starts_with(params, cwd) {
                let dir = skip_chars(params, 4);
                self.zone_manager.set_working_directory(dir.to_owned());
            }
            true
        } else {
            false
        }
    }

    /// Carries out an OSC 7 body.
    fn handle_osc_7(&mut self, data: &str) -> (r: bool)
        requires
            old(self).wf(),
        ensures
            final(self).wf(),
            handled(*old(self), *final(self), OscRequest::WorkingDir(osc7_path(data@))),
            r,
    {
        let file = "file://";
        proof {
            reveal_strlit("file://");
            assert(file@ =~= seq!['f', 'i', 'l', 'e', ':', '/', '/']);
        }
        let path_part = if str_starts_with(data, file) {
            let rest = skip_chars(data, 7);
            let rest_len = rest.unicode_len();
            match find_char(rest, '/') {
                Some(slash_idx) => skip_chars(rest, slash_idx),
                None => rest,
            }
        } else {
            data
        };
        let path = decode_percent(path_part);
        let reported = path.clone();
        self.zone_manager.set_working_directory(path);
        self.pending_events.push(ShellEvent::WorkingDirectoryChanged { path: reported });
        proof {
            assert(self.pending_events@.drop_last() =~= old(self).pending_events@);
        }
        true
    }

    /// Carries out the text of an OSC sequence (see `osc_request`); returns
    /// whether it was a shell integration sequence.
    pub fn handle_osc_text(&mut self, osc: &str) -> (r: bool)
        requires
            old(self).wf(),
            osc_request(osc@) is Prompt ==> old(self).zones().next_view() < u64::MAX,
        ensures
            final(self).wf(),
            handled(*old(self), *final(self), osc_request(osc@)),
            r == !(osc_request(osc@) is Unknown),
    {
        let p133 = "133;";
        let p633 = "633;";
        let p7 = "7;";
        proof {
            reveal_strlit("133;");
            reveal_strlit("633;");
            reveal_strlit("7;");
            assert(p133@ =~= seq!['1', '3', '3', ';']);
            assert(p633@ =~= seq!['6', '3', '3', ';']);
            assert(p7@ =~= seq!['7', ';']);
        }
        if str_starts_with(osc, p133) {
            let rest = skip_chars(osc, 4);
            self.handle_osc_133(rest)
        } else if str_starts_with(osc, p633) {
            let rest = skip_chars(osc, 4);
            self.handle_osc_633(rest)
        } else if str_starts_with(osc, p7) {
            let rest = skip_chars(osc, 2);
            self.handle_osc_7(rest)
        } else {
            false
        }
    }

    /// Carries out an OSC sequence given as bytes: bytes that are not valid
    /// UTF-8 are not handled; text is handled as `handle_osc_text` does.
    pub fn handle_osc(&mut self, osc: &[u8]) -> (r: bool)
        requires
            old(self).wf(),
            valid_utf8(osc@) && osc_request(decode_utf8(osc@)) is Prompt ==> old(self).zones().next_view()
                < u64::MAX,
        ensures
            final(self).wf(),
            !valid_utf8(osc@) ==> !r && *final(self) == *old(self),
            valid_utf8(osc@) ==> handled(*old(self), *final(self), osc_request(decode_utf8(osc@))) && r == !(
            osc_request(decode_utf8(osc@)) is Unknown),
    {
        match str_from_utf8(osc) {
            Some(s) => {
                proof {
                    vstd::utf8::encode_utf8_decode_utf8(s@);
                }
                self.handle_osc_text(s)
            },
            None => false,
        }
    }
}

/// An OSC 133 body is a request exactly when its command is `A`, `B`, `C`
/// or `D`; any other body changes nothing. With no active zone, `B` and `C`
/// change no zone and queue no event, and `D` queues no event. `A` always
/// opens one zone, makes it active and queues exactly its prompt event.
pub proof fn lemma_osc_133_requests(h1: ShellIntegrationHandler, h2: ShellIntegrationHandler, data: Seq<char>)
    requires
        handled(h1, h2, request_133(first_field(data), rest_field(data))),
    ensures
        ({
            let cmd = first_field(data);
            &&& !(request_133(cmd, rest_field(data)) is Unknown) <==> (cmd == seq!['A'] || cmd == seq!['B']
                || cmd == seq!['C'] || cmd == seq!['D'])
            &&& request_133(cmd, rest_field(data)) is Unknown ==> h2.zones() == h1.zones() && h2.events()
                == h1.events()
            &&& (h1.zones().active_view() is None && (cmd == seq!['B'] || cmd == seq!['C'])) ==> (
            h2.zones().zones_view() == h1.zones().zones_view() && h2.events() == h1.events())
            &&& (h1.zones().active_view() is None && cmd == seq!['D']) ==> h2.events() == h1.events()
            &&& cmd == seq!['A'] ==> ({
                let id = ZoneId::from_view(h1.zones().next_view());
                &&& h2.zones().zones_view().len() == h1.zones().zones_view().len() + 1
                &&& h2.zones().active_view() == Some(id@)
                &&& h2.zones().zones_view().last().id == id
                &&& h2.events() == h1.events() + seq![ShellEvent::PromptStarted { zone_id: id, line: h1.line() }]
            })
        }),
{
    let cmd = first_field(data);
    assert(h1.events() + Seq::<ShellEvent>::empty() =~= h1.events());
    if cmd == seq!['A'] {
        let id = ZoneId::from_view(h1.zones().next_view());
        ZoneId::lemma_from_view(h1.zones().next_view());
        ZoneId::lemma_view_injective(h2.zones().zones_view().last().id, id);
    }
}

/// `D` ends the active zone at the current line with the exit code of its
/// parameters (0 when there are none): the zone is finished, no zone is
/// active any more, no zone is added or removed, and exactly one finish
/// event is queued.
pub proof fn lemma_osc_133_finish(h1: ShellIntegrationHandler, h2: ShellIntegrationHandler, data: Seq<char>, a: u64)
    requires
        h1.wf(),
        first_field(data) == seq!['D'],
        handled(h1, h2, request_133(first_field(data), rest_field(data))),
        h1.zones().active_view() == Some(a),
    ensures
        ({
            let code = exit_code_of(rest_field(data));
            let z = h1.zones().zones_view()[a as int];
            &&& h2.zones().zones_view().len() == h1.zones().zones_view().len()
            &&& h2.zones().zones_view()[a as int].end_line == Some(h1.line())
            &&& h2.zones().zones_view()[a as int].state == CommandState::CommandFinished(code)
            &&& h2.zones().active_view() is None
            &&& h2.events() == h1.events() + seq![
                ShellEvent::CommandFinished { zone_id: z.id, line: h1.line(), exit_code: code },
            ]
        }),
        rest_field(data).len() == 0 ==> exit_code_of(rest_field(data)) == 0,
{
    h1.zones().lemma_wf();
    let code = exit_code_of(rest_field(data));
    assert(seq!['D'][0] != seq!['A'][0] && seq!['D'][0] != seq!['B'][0] && seq!['D'][0] != seq!['C'][0]);
    assert(request_133(first_field(data), rest_field(data)) == OscRequest::Finished(code));
}

/// OSC 633 `E` sets the active zone's command to its parameters
/// percent-decoded and queues one event with that command; `P` with
/// `Cwd=d` sets the active zone's working directory to `d`, and any other
/// property changes nothing. Neither changes a zone's state or lines.
pub proof fn lemma_osc_633_command_and_cwd(
    h1: ShellIntegrationHandler,
    h2: ShellIntegrationHandler,
    data: Seq<char>,
    a: u64,
)
    requires
        h1.wf(),
        handled(h1, h2, request_633(data)),
        h1.zones().active_view() == Some(a),
    ensures
        ({
            let cmd = first_field(data);
            let params = rest_field(data);
            let z = h1.zones().zones_view()[a as int];
            let n = h2.zones().zones_view()[a as int];
            &&& cmd == seq!['E'] ==> {
                &&& n.command matches Some(c) && c@ == percent_decoded(params)
                &&& n.state == z.state && n.start_line == z.start_line && n.end_line == z.end_line
                &&& h2.events().len() == h1.events().len() + 1
                &&& h2.events().drop_last() == h1.events()
                &&& h2.events().last() matches ShellEvent::CommandCaptured { zone_id, command } && zone_id
                    == z.id && command@ == percent_decoded(params)
            }
            &&& (cmd == seq!['P'] && has_prefix(params, seq!['C', 'w', 'd', '='])) ==> {
                &&& n.working_directory matches Some(d) && d@ == params.skip(4)
                &&& n.state == z.state && n.start_line == z.start_line && n.end_line == z.end_line
                &&& h2.events() == h1.events()
            }
            &&& (cmd == seq!['P'] && !has_prefix(params, seq!['C', 'w', 'd', '='])) ==> h2.zones() == h1.zones()
                && h2.events() == h1.events()
        }),
{
    h1.zones().lemma_wf();
    let cmd = first_field(data);
    assert(seq!['E'][0] != seq!['A'][0] && seq!['E'][0] != seq!['B'][0] && seq!['E'][0] != seq!['C'][0]
        && seq!['E'][0] != seq!['D'][0]);
    assert(seq!['P'][0] != seq!['A'][0] && seq!['P'][0] != seq!['B'][0] && seq!['P'][0] != seq!['C'][0]
        && seq!['P'][0] != seq!['D'][0] && seq!['P'][0] != seq!['E'][0]);
    if cmd == seq!['E'] {
        h2.zones().lemma_wf();
    }
}

} // verus!
