//! Command zones: the regions of terminal output that belong to one prompt,
//! its command line and the command's output, tracked by line.
use vstd::prelude::*;

use core::time::Duration;
use std::time::Instant;

verus! {

/// The std monotonic clock reading, carried through as an opaque value.
#[verifier::external_type_specification]
#[verifier::external_body]
pub struct ExInstant(Instant);

/// Calls `Instant::now`. What comes back depends on the clock, so nothing
/// is stated of it.
#[verifier::external_body]
fn instant_now() -> Instant {
    Instant::now()
}

/// Calls `Instant::duration_since`, the time elapsed from `earlier` to
/// `later` (zero when `earlier` is later). The instants are opaque here,
/// so nothing is stated of the result.
#[verifier::external_body]
fn instant_duration_since(later: Instant, earlier: Instant) -> Duration {
    later.duration_since(earlier)
}

/// `Instant` is `Copy`; its `clone` gives back the same instant.
pub assume_specification[ <Instant as Clone>::clone ](i: &Instant) -> (r: Instant)
    ensures
        r == *i,
;

/// The identifier of a command zone.
#[derive(Debug, Clone, Copy, PartialEq, Eq, Hash, Structural)]
pub struct ZoneId(u64);

impl View for ZoneId {
    type V = u64;

    closed spec fn view(&self) -> u64 {
        self.0
    }
}

impl ZoneId {
    /// The identifier with number `id`.
    pub closed spec fn from_view(id: u64) -> ZoneId {
        ZoneId(id)
    }

    /// The identifier `id`.
    pub fn new(id: u64) -> (z: ZoneId)
        ensures
            z@ == id,
            z == ZoneId::from_view(id),
    {
        ZoneId(id)
    }

    /// The number inside.
    pub fn inner(&self) -> (v: u64)
        ensures
            v == self@,
    {
        self.0
    }

    /// Two identifiers are equal exactly when their numbers are.
    pub proof fn lemma_view_injective(a: ZoneId, b: ZoneId)
        ensures
            a@ == b@ <==> a == b,
            ZoneId::from_view(a@) == a,
            ZoneId::from_view(a@)@ == a@,
    {
    }

    /// The identifier with a given number has that number.
    pub proof fn lemma_from_view(v: u64)
        ensures
            ZoneId::from_view(v)@ == v,
    {
    }
}

/// Where a command is in its life.
#[derive(Debug, Clone, Copy, PartialEq, Eq, Structural)]
pub enum CommandState {
    /// The prompt is shown.
    PromptStart,
    /// The user is typing the command.
    CommandStart,
    /// The command runs.
    CommandExecuting,
    /// The command ended with this exit code.
    CommandFinished(i32),
}

impl CommandState {
    /// Whether the command runs.
    pub fn is_running(&self) -> (r: bool)
        ensures
            r == (*self is CommandExecuting),
    {
        match self {
            CommandState::CommandExecuting => true,
            _ => false,
        }
    }

    /// Whether the command has ended.
    pub fn is_finished(&self) -> (r: bool)
        ensures
            r == (*self is CommandFinished),
    {
        match self {
            CommandState::CommandFinished(_) => true,
            _ => false,
        }
    }

    /// The exit code, once ended.
    pub fn exit_code(&self) -> (r: Option<i32>)
        ensures
            r == (match *self {
                CommandState::CommandFinished(c) => Some(c),
                _ => None,
            }),
    {
        match self {
            CommandState::CommandFinished(code) => Some(*code),
            _ => None,
        }
    }

    /// Whether the command ended with exit code 0.
    pub fn is_success(&self) -> (r: bool)
        ensures
            r == (*self == CommandState::CommandFinished(0)),
    {
        match self {
            CommandState::CommandFinished(code) => *code == 0,
            _ => false,
        }
    }

    /// Whether the command ended with a non-zero exit code.
    pub fn is_failure(&self) -> (r: bool)
        ensures
            r == (*self matches CommandState::CommandFinished(c) && c != 0),
    {
        match self {
            CommandState::CommandFinished(code) => *code != 0,
            _ => false,
        }
    }
}

/// A command zone: lines `start_line..end_line` (open-ended while active).
#[derive(Debug)]
pub struct CommandZone {
    /// The identifier.
    pub id: ZoneId,
    /// Where the command is in its life.
    pub state: CommandState,
    /// The first line (absolute, counting scrollback).
    pub start_line: usize,
    /// The line after the last one; `None` while the zone is active.
    pub end_line: Option<usize>,
    /// The command text, once reported.
    pub command: Option<String>,
    /// The working directory, once reported.
    pub working_directory: Option<String>,
    /// When the zone started.
    pub started_at: Instant,
    /// When the command ended.
    pub finished_at: Option<Instant>,
}

impl Clone for CommandZone {
    /// A copy of the zone.
    fn clone(&self) -> (c: CommandZone)
        ensures
            c == *self,
    {
        CommandZone {
            id: self.id,
            state: self.state,
            start_line: self.start_line,
            end_line: self.end_line,
            command: match &self.command {
                Some(s) => Some(s.clone()),
                None => None,
            },
            working_directory: match &self.working_directory {
                Some(s) => Some(s.clone()),
                None => None,
            },
            started_at: self.started_at.clone(),
            finished_at: match &self.finished_at {
                Some(t) => Some(t.clone()),
                None => None,
            },
        }
    }
}

/// Whether `line` lies in a zone starting at `start` and ending before `end`.
pub open spec fn zone_contains(start: usize, end: Option<usize>, line: usize) -> bool {
    match end {
        Some(e) => start <= line && line < e,
        None => start <= line,
    }
}

/// A zone just started: the given identifier, state and first line, open,
/// with no command, directory or end time.
pub open spec fn is_fresh_zone(z: CommandZone, id: u64, state: CommandState, start_line: usize) -> bool {
    &&& z.id@ == id
    &&& z.state == state
    &&& z.start_line == start_line
    &&& z.end_line is None
    &&& z.command is None
    &&& z.working_directory is None
    &&& z.finished_at is None
}

impl CommandZone {
    /// A new open zone starting at `start_line`, timed from now.
    pub fn new(id: ZoneId, state: CommandState, start_line: usize) -> (z: CommandZone)
        ensures
            is_fresh_zone(z, id@, state, start_line),
    {
        CommandZone {
            id,
            state,
            start_line,
            end_line: None,
            command: None,
            working_directory: None,
            started_at: instant_now(),
            finished_at: None,
        }
    }

    /// Whether `line` lies in the zone.
    pub fn contains_line(&self, line: usize) -> (r: bool)
        ensures
            r == zone_contains(self.start_line, self.end_line, line),
    {
        match self.end_line {
            Some(end) => line >= self.start_line && line < end,
            None => line >= self.start_line,
        }
    }

    /// The first line and the end.
    pub fn line_range(&self) -> (r: (usize, Option<usize>))
        ensures
            r == (self.start_line, self.end_line),
    {
        (self.start_line, self.end_line)
    }

    /// How long the command ran, once it has ended.
    pub fn duration(&self) -> (d: Option<Duration>)
        ensures
            d is Some <==> self.finished_at is Some,
    {
        match self.finished_at {
            Some(end) => Some(instant_duration_since(end, self.started_at)),
            None => None,
        }
    }

    /// The number of lines, once the zone is closed (0 when it ends before it starts).
    pub fn line_count(&self) -> (n: Option<usize>)
        ensures
            n == (match self.end_line {
                Some(e) => Some(if e >= self.start_line { (e - self.start_line) as usize } else { 0usize }),
                None => None,
            }),
    {
        match self.end_line {
            Some(end) => Some(end.saturating_sub(self.start_line)),
            None => None,
        }
    }

    /// Closes the zone at `end_line` with the command's exit code, timed now.
    pub fn finish(&mut self, end_line: usize, exit_code: i32)
        ensures
            final(self).end_line == Some(end_line),
            final(self).state == CommandState::CommandFinished(exit_code),
            final(self).finished_at is Some,
            final(self).id == old(self).id,
            final(self).start_line == old(self).start_line,
            final(self).command == old(self).command,
            final(self).working_directory == old(self).working_directory,
            final(self).started_at == old(self).started_at,
    {
        self.end_line = Some(end_line);
        self.state = CommandState::CommandFinished(exit_code);
        self.finished_at = Some(instant_now());
    }

    /// Whether the command has ended.
    pub fn is_finished(&self) -> (r: bool)
        ensures
            r == (self.state is CommandFinished),
    {
        self.state.is_finished()
    }
}

/// The zones, identified by their position: zone `i` has identifier `i`.
#[derive(Debug)]
pub struct ZoneManager {
    zones: Vec<CommandZone>,
    active_zone_id: Option<ZoneId>,
    next_id: u64,
}

impl ZoneManager {
    /// The zones in the order they were started.
    pub closed spec fn zones_view(&self) -> Seq<CommandZone> {
        self.zones@
    }

    /// The identifier of the active zone.
    pub closed spec fn active_view(&self) -> Option<u64> {
        match self.active_zone_id {
            Some(id) => Some(id@),
            None => None,
        }
    }

    /// The identifier the next zone gets.
    pub closed spec fn next_view(&self) -> u64 {
        self.next_id
    }

    /// Internal consistency: zone `i` has identifier `i`, the next identifier
    /// is the number of zones, and an active zone exists.
    pub closed spec fn wf(&self) -> bool {
        &&& forall|i: int| 0 <= i < self.zones@.len() ==> (#[trigger] self.zones@[i]).id@ == i
        &&& self.next_id == self.zones@.len()
        &&& (self.active_zone_id matches Some(a) ==> a@ < self.zones@.len())
    }

    /// The facts of `wf` callers use.
    pub proof fn lemma_wf(&self)
        requires
            self.wf(),
        ensures
            forall|i: int| 0 <= i < self.zones_view().len() ==> (#[trigger] self.zones_view()[i]).id@ == i,
            self.next_view() == self.zones_view().len(),
            self.active_view() matches Some(a) ==> a < self.zones_view().len(),
    {
    }
}

/// The zones with the active one (if any) closed at `line` where it is open.
pub open spec fn active_closed(zones: Seq<CommandZone>, active: Option<u64>, line: usize) -> Seq<CommandZone> {
    match active {
        Some(a) => if zones[a as int].end_line is None {
            zones.update(a as int, CommandZone { end_line: Some(line), ..zones[a as int] })
        } else {
            zones
        },
        None => zones,
    }
}

/// Searching the zones before index `k` from the newest down, the index of
/// the first one that contains `line`.
pub open spec fn last_containing_below(zones: Seq<CommandZone>, line: usize, k: int) -> Option<int>
    decreases k,
{
    if k <= 0 {
        None
    } else if zone_contains(zones[k - 1].start_line, zones[k - 1].end_line, line) {
        Some(k - 1)
    } else {
        last_containing_below(zones, line, k - 1)
    }
}

/// The index of the newest zone that contains `line`.
pub open spec fn last_containing(zones: Seq<CommandZone>, line: usize) -> Option<int> {
    last_containing_below(zones, line, zones.len() as int)
}

/// Searching the zones before index `k` from the newest down, the index of
/// the first one other than `skip` that starts before `line`.
pub open spec fn last_before_below(zones: Seq<CommandZone>, skip: Option<int>, line: usize, k: int) -> Option<int>
    decreases k,
{
    if k <= 0 {
        None
    } else if Some(k - 1) != skip && zones[k - 1].start_line < line {
        Some(k - 1)
    } else {
        last_before_below(zones, skip, line, k - 1)
    }
}

/// The index of the newest zone other than `skip` that starts before `line`.
pub open spec fn last_before(zones: Seq<CommandZone>, skip: Option<int>, line: usize) -> Option<int> {
    last_before_below(zones, skip, line, zones.len() as int)
}

/// Searching the zones from index `k` on, oldest first, the index of the
/// first one that starts after `line`.
pub open spec fn first_after_from(zones: Seq<CommandZone>, line: usize, k: int) -> Option<int>
    decreases zones.len() - k,
{
    if k >= zones.len() || k < 0 {
        None
    } else if zones[k].start_line > line {
        Some(k)
    } else {
        first_after_from(zones, line, k + 1)
    }
}

/// The index of the oldest zone that starts after `line`.
pub open spec fn first_after(zones: Seq<CommandZone>, line: usize) -> Option<int> {
    first_after_from(zones, line, 0)
}

/// A search from the top of a range finds an index inside it.
proof fn lemma_last_containing_in_range(zones: Seq<CommandZone>, line: usize, k: int)
    requires
        k <= zones.len(),
    ensures
        last_containing_below(zones, line, k) matches Some(i) ==> 0 <= i < k,
    decreases k,
{
    if k > 0 {
        lemma_last_containing_in_range(zones, line, k - 1);
    }
}

/// `start_zone(state, line)` took `old` to `new` and returned `id`.
pub open spec fn zones_started(old: ZoneManager, new: ZoneManager, state: CommandState, line: usize, id: ZoneId) -> bool {
    &&& new.wf()
    &&& id@ == old.next_view()
    &&& new.next_view() == old.next_view() + 1
    &&& new.active_view() == Some(id@)
    &&& new.zones_view().len() == old.zones_view().len() + 1
    &&& new.zones_view().drop_last() == active_closed(old.zones_view(), old.active_view(), line)
    &&& is_fresh_zone(new.zones_view().last(), id@, state, line)
}

/// Only zone `a` changed between `old` and `new`, which have as many zones.
pub open spec fn only_zone_changed(old: Seq<CommandZone>, new: Seq<CommandZone>, a: int) -> bool {
    &&& new.len() == old.len()
    &&& forall|i: int| 0 <= i < old.len() && i != a ==> #[trigger] new[i] == old[i]
    &&& new[a].id == old[a].id
    &&& new[a].start_line == old[a].start_line
    &&& new[a].command == old[a].command
    &&& new[a].working_directory == old[a].working_directory
    &&& new[a].started_at == old[a].started_at
}

/// `transition_state(state, line)` took `old` to `new`.
pub open spec fn zones_transitioned(old: ZoneManager, new: ZoneManager, state: CommandState, line: usize) -> bool {
    &&& new.wf()
    &&& new.active_view() == old.active_view()
    &&& new.next_view() == old.next_view()
    &&& match old.active_view() {
        Some(a) => {
            let z = old.zones_view()[a as int];
            let n = new.zones_view()[a as int];
            &&& only_zone_changed(old.zones_view(), new.zones_view(), a as int)
            &&& n.state == state
            &&& n.end_line == (if state is CommandFinished { Some(line) } else { z.end_line })
            &&& (state is CommandFinished ==> n.finished_at is Some)
            &&& (!(state is CommandFinished) ==> n.finished_at == z.finished_at)
        },
        None => new.zones_view() == old.zones_view(),
    }
}

/// `finish_zone(line, code)` took `old` to `new`.
pub open spec fn zones_finished(old: ZoneManager, new: ZoneManager, line: usize, code: i32) -> bool {
    &&& new.wf()
    &&& new.active_view() is None
    &&& new.next_view() == old.next_view()
    &&& match old.active_view() {
        Some(a) => {
            let n = new.zones_view()[a as int];
            &&& only_zone_changed(old.zones_view(), new.zones_view(), a as int)
            &&& n.state == CommandState::CommandFinished(code)
            &&& n.end_line == Some(line)
            &&& n.finished_at is Some
        },
        None => new.zones_view() == old.zones_view(),
    }
}

/// `set_command(command)` took `old` to `new`: the active zone (if any)
/// holds a command with the text `command`.
pub open spec fn zones_command_set(old: ZoneManager, new: ZoneManager, command: Seq<char>) -> bool {
    &&& new.wf()
    &&& new.active_view() == old.active_view()
    &&& new.next_view() == old.next_view()
    &&& match old.active_view() {
        Some(a) => {
            let z = old.zones_view()[a as int];
            let n = new.zones_view()[a as int];
            &&& new.zones_view().len() == old.zones_view().len()
            &&& forall|i: int| 0 <= i < old.zones_view().len() && i != a ==> #[trigger] new.zones_view()[i] == old.zones_view()[i]
            &&& n.command matches Some(c) && c@ == command
            &&& n == (CommandZone { command: n.command, ..z })
        },
        None => new.zones_view() == old.zones_view(),
    }
}

/// `set_working_directory(dir)` took `old` to `new`: the active zone (if
/// any) holds a working directory with the text `dir`.
pub open spec fn zones_directory_set(old: ZoneManager, new: ZoneManager, dir: Seq<char>) -> bool {
    &&& new.wf()
    &&& new.active_view() == old.active_view()
    &&& new.next_view() == old.next_view()
    &&& match old.active_view() {
        Some(a) => {
            let z = old.zones_view()[a as int];
            let n = new.zones_view()[a as int];
            &&& new.zones_view().len() == old.zones_view().len()
            &&& forall|i: int| 0 <= i < old.zones_view().len() && i != a ==> #[trigger] new.zones_view()[i] == old.zones_view()[i]
            &&& n.working_directory matches Some(d) && d@ == dir
            &&& n == (CommandZone { working_directory: n.working_directory, ..z })
        },
        None => new.zones_view() == old.zones_view(),
    }
}

impl Default for ZoneManager {
    fn default() -> (m: ZoneManager)
        ensures
            m.wf(),
            m.zones_view().len() == 0,
            m.active_view() is None,
            m.next_view() == 0,
    {
        ZoneManager::new()
    }
}

impl ZoneManager {
    /// No zones.
    pub fn new() -> (m: ZoneManager)
        ensures
            m.wf(),
            m.zones_view().len() == 0,
            m.active_view() is None,
            m.next_view() == 0,
    {
        ZoneManager { zones: Vec::new(), active_zone_id: None, next_id: 0 }
    }

    /// Starts a zone at `start_line`, first closing the active zone there if
    /// it is still open; the new zone becomes the active one.
    pub fn start_zone(&mut self, state: CommandState, start_line: usize) -> (id: ZoneId)
        requires
            old(self).wf(),
            old(self).next_view() < u64::MAX,
        ensures
            zones_started(*old(self), *final(self), state, start_line, id),
    {
        match self.active_zone_id.take() {
            Some(active_id) => {
                let n = self.zones.len();
                assert(active_id@ < n);
                let a = active_id.inner() as usize;
                assert(a == active_id@);
                if self.zones[a].end_line.is_none() {
                    self.zones[a].end_line = Some(start_line);
                }
            },
            None => {},
        }
        let id = ZoneId::new(self.next_id);
        self.next_id = self.next_id + 1;
        let zone = CommandZone::new(id, state, start_line);
        self.zones.push(zone);
        self.active_zone_id = Some(id);
        proof {
            assert(self.zones@.drop_last() =~= active_closed(old(self).zones@, old(self).active_view(), start_line));
        }
        id
    }

    /// Moves the active zone to `new_state`; an ending state also closes it
    /// at `line` and times its end.
    pub fn transition_state(&mut self, new_state: CommandState, line: usize)
        requires
            old(self).wf(),
        ensures
            zones_transitioned(*old(self), *final(self), new_state, line),
    {
        match self.active_zone_id {
            Some(active_id) => {
                let n = self.zones.len();
                assert(active_id@ < n);
                let a = active_id.inner() as usize;
                assert(a == active_id@);
                self.zones[a].state = new_state;
                if new_state.is_finished() {
                    self.zones[a].end_line = Some(line);
                    self.zones[a].finished_at = Some(instant_now());
                }
            },
            None => {},
        }
    }

    /// Closes the active zone at `end_line` with the exit code; no zone is
    /// active afterwards.
    pub fn finish_zone(&mut self, end_line: usize, exit_code: i32)
        requires
            old(self).wf(),
        ensures
            zones_finished(*old(self), *final(self), end_line, exit_code),
    {
        match self.active_zone_id.take() {
            Some(active_id) => {
                let n = self.zones.len();
                assert(active_id@ < n);
                let a = active_id.inner() as usize;
                assert(a == active_id@);
                self.zones[a].finish(end_line, exit_code);
            },
            None => {},
        }
    }

    /// Records the command text on the active zone.
    pub fn set_command(&mut self, command: String)
        requires
            old(self).wf(),
        ensures
            zones_command_set(*old(self), *final(self), command@),
    {
        match self.active_zone_id {
            Some(active_id) => {
                let n = self.zones.len();
                assert(active_id@ < n);
                let a = active_id.inner() as usize;
                assert(a == active_id@);
                self.zones[a].command = Some(command);
            },
            None => {},
        }
    }

    /// Records the working directory on the active zone.
    pub fn set_working_directory(&mut self, dir: String)
        requires
            old(self).wf(),
        ensures
            zones_directory_set(*old(self), *final(self), dir@),
    {
        match self.active_zone_id {
            Some(active_id) => {
                let n = self.zones.len();
                assert(active_id@ < n);
                let a = active_id.inner() as usize;
                assert(a == active_id@);
                self.zones[a].working_directory = Some(dir);
            },
            None => {},
        }
    }

    /// The zone with identifier `id`.
    pub fn get(&self, id: ZoneId) -> (r: Option<&CommandZone>)
        requires
            self.wf(),
        ensures
            r == (if id@ < self.zones_view().len() { Some(&self.zones_view()[id@ as int]) } else { None }),
    {
        let i = id.inner();
        let n = self.zones.len();
        if i < self.next_id {
            assert(i < n);
            assert(i as usize == i);
            Some(&self.zones[i as usize])
        } else {
            None
        }
    }

    /// The zone with identifier `id`, for update in place. Its identifier
    /// must stay as it is.
    pub fn get_mut(&mut self, id: ZoneId) -> (r: Option<&mut CommandZone>)
        requires
            old(self).wf(),
        ensures
            id@ < old(self).zones_view().len() ==> (r matches Some(z) && *z == old(self).zones_view()[id@ as int]
                && final(self).zones_view() == old(self).zones_view().update(id@ as int, *final(z))
                && final(self).active_view() == old(self).active_view()
                && final(self).next_view() == old(self).next_view()
                && (final(z).id == id ==> final(self).wf())),
            id@ >= old(self).zones_view().len() ==> (r is None && final(self).zones_view() == old(self).zones_view()
                && final(self).active_view() == old(self).active_view()
                && final(self).next_view() == old(self).next_view() && final(self).wf()),
    {
        let i = id.inner();
        let n = self.zones.len();
        if i < self.next_id {
            assert(i < n);
            assert(i as usize == i);
            Some(&mut self.zones[i as usize])
        } else {
            None
        }
    }

    /// The active zone.
    pub fn active_zone(&self) -> (r: Option<&CommandZone>)
        requires
            self.wf(),
        ensures
            r == (match self.active_view() {
                Some(a) => Some(&self.zones_view()[a as int]),
                None => None,
            }),
    {
        match self.active_zone_id {
            Some(id) => self.get(id),
            None => None,
        }
    }

    /// The index of the newest zone containing `line`.
    fn index_at_line(&self, line: usize) -> (r: Option<usize>)
        ensures
            r == (match last_containing(self.zones_view(), line) {
                Some(i) => Some(i as usize),
                None => None,
            }),
            r matches Some(i) ==> i < self.zones_view().len(),
    {
        proof {
            lemma_last_containing_in_range(self.zones@, line, self.zones@.len() as int);
        }
        let mut k = self.zones.len();
        while k > 0
            invariant
                k <= self.zones@.len(),
                last_containing(self.zones@, line) == last_containing_below(self.zones@, line, k as int),
            decreases k,
        {
            if self.zones[k - 1].contains_line(line) {
                return Some(k - 1);
            }
            k = k - 1;
        }
        None
    }

    /// The newest zone containing `line`.
    pub fn zone_at_line(&self, line: usize) -> (r: Option<&CommandZone>)
        ensures
            r == (match last_containing(self.zones_view(), line) {
                Some(i) => Some(&self.zones_view()[i]),
                None => None,
            }),
    {
        proof {
            lemma_last_containing_in_range(self.zones@, line, self.zones@.len() as int);
        }
        let n = self.zones.len();
        match self.index_at_line(line) {
            Some(i) => Some(&self.zones[i]),
            None => None,
        }
    }

    /// The newest zone, other than the one containing `from_line`, that
    /// starts before `from_line`.
    pub fn previous_prompt(&self, from_line: usize) -> (r: Option<&CommandZone>)
        ensures
            r == (match last_before(self.zones_view(), last_containing(self.zones_view(), from_line), from_line) {
                Some(i) => Some(&self.zones_view()[i]),
                None => None,
            }),
    {
        let n = self.zones.len();
        let current = self.index_at_line(from_line);
        let ghost skip = last_containing(self.zones@, from_line);
        proof {
            lemma_last_containing_in_range(self.zones@, from_line, self.zones@.len() as int);
        }
        let mut k = self.zones.len();
        while k > 0
            invariant
                k <= self.zones@.len(),
                n == self.zones@.len(),
                skip == last_containing(self.zones@, from_line),
                current == (match skip {
                    Some(i) => Some(i as usize),
                    None => None,
                }),
                skip matches Some(i) ==> 0 <= i < self.zones@.len(),
                last_before(self.zones@, skip, from_line) == last_before_below(self.zones@, skip, from_line, k as int),
            decreases k,
        {
            let is_current = match current {
                Some(c) => c == k - 1,
                None => false,
            };
            proof {
                assert(is_current == (Some(k - 1) == skip)) by {
                    if let Some(i) = skip {
                        assert(current == Some(i as usize));
                    }
                }
            }
            if !is_current && self.zones[k - 1].start_line < from_line {
                assert(last_before_below(self.zones@, skip, from_line, k as int) == Some(k - 1));
                return Some(&self.zones[k - 1]);
            }
            k = k - 1;
        }
        None
    }

    /// The oldest zone that starts after `from_line`.
    pub fn next_prompt(&self, from_line: usize) -> (r: Option<&CommandZone>)
        ensures
            r == (match first_after(self.zones_view(), from_line) {
                Some(i) => Some(&self.zones_view()[i]),
                None => None,
            }),
    {
        let mut k: usize = 0;
        while k < self.zones.len()
            invariant
                k <= self.zones@.len(),
                first_after(self.zones@, from_line) == first_after_from(self.zones@, from_line, k as int),
            decreases self.zones@.len() - k,
        {
            if self.zones[k].start_line > from_line {
                return Some(&self.zones[k]);
            }
            k = k + 1;
        }
        None
    }

    /// The zones, in the order they were started.
    pub fn zones(&self) -> (r: core::slice::Iter<'_, CommandZone>)
        ensures
            vstd::std_specs::slice::into_iter_elts(r) == self.zones_view(),
    {
        self.zones.iter()
    }

    /// The zones, in the order they were started, as a slice.
    pub fn as_slice(&self) -> (r: &[CommandZone])
        ensures
            r@ == self.zones_view(),
    {
        self.zones.as_slice()
    }

    /// The number of zones.
    pub fn len(&self) -> (n: usize)
        ensures
            n == self.zones_view().len(),
    {
        self.zones.len()
    }

    /// Whether there are no zones.
    pub fn is_empty(&self) -> (r: bool)
        ensures
            r == (self.zones_view().len() == 0),
    {
        self.zones.len() == 0
    }

    /// Drops every zone and starts identifiers from 0 again.
    pub fn clear(&mut self)
        ensures
            final(self).wf(),
            final(self).zones_view().len() == 0,
            final(self).active_view() is None,
            final(self).next_view() == 0,
    {
        self.zones.clear();
        self.active_zone_id = None;
        self.next_id = 0;
    }
}

/// Zone identifiers are handed out in order: the zone started `k`-th
/// (from 0) has identifier `k`, and identifiers never repeat.
pub proof fn lemma_zone_ids_unique(m: ZoneManager, i: int, j: int)
    requires
        m.wf(),
        0 <= i < m.zones_view().len(),
        0 <= j < m.zones_view().len(),
        i != j,
    ensures
        m.zones_view()[i].id != m.zones_view()[j].id,
        m.zones_view()[i].id@ == i,
{
    m.lemma_wf();
    ZoneId::lemma_view_injective(m.zones_view()[i].id, m.zones_view()[j].id);
}

} // verus!
