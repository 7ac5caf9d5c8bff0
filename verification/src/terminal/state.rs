//! What a terminal view shows of its state: its size and the shell
//! integration zones it draws.
use vstd::prelude::*;

use crate::shell_integration::scanner::opt_chars;
use crate::shell_integration::zone::{
    first_after, last_before, last_containing, CommandState, CommandZone, ZoneManager,
};

verus! {

/// A terminal size in characters.
#[derive(Debug, Clone, Copy, PartialEq, Eq, Structural)]
pub struct TerminalSize {
    pub cols: u16,
    pub rows: u16,
}

impl Default for TerminalSize {
    /// 80 columns by 24 rows.
    fn default() -> (s: TerminalSize)
        ensures
            s == (TerminalSize { cols: 80, rows: 24 }),
    {
        TerminalSize { cols: 80, rows: 24 }
    }
}

/// What is drawn of a shell integration zone.
#[derive(Debug, Clone)]
pub struct ZoneInfo {
    /// The zone's first line (counting scrollback).
    pub start_line: usize,
    /// The line after its last one; `None` while it is open.
    pub end_line: Option<usize>,
    /// Whether this is the prompt line (the zone's first line).
    pub is_prompt_line: bool,
    /// Whether the command still runs.
    pub is_running: bool,
    /// The exit code, once finished.
    pub exit_code: Option<i32>,
    /// The command, if reported.
    pub command: Option<String>,
}

/// `info` describes zone `z`.
pub open spec fn describes(info: ZoneInfo, z: CommandZone) -> bool {
    &&& info.start_line == z.start_line
    &&& info.end_line == z.end_line
    &&& info.is_prompt_line
    &&& info.is_running == (z.state is CommandExecuting)
    &&& info.exit_code == (match z.state {
        CommandState::CommandFinished(c) => Some(c),
        _ => None,
    })
    &&& opt_chars(info.command) == opt_chars(z.command)
}

/// Zone `z` meets the lines `first..last` (an open zone reaches to the end).
pub open spec fn zone_meets(z: CommandZone, first: usize, last: int) -> bool {
    &&& z.start_line < last
    &&& match z.end_line {
        Some(e) => e > first,
        None => usize::MAX > first,
    }
}

/// The zones of `zs` that meet the lines `first..last`, in order.
pub open spec fn zones_meeting(zs: Seq<CommandZone>, first: usize, last: int) -> Seq<CommandZone>
    decreases zs.len(),
{
    if zs.len() == 0 {
        Seq::empty()
    } else if zone_meets(zs.last(), first, last) {
        zones_meeting(zs.drop_last(), first, last).push(zs.last())
    } else {
        zones_meeting(zs.drop_last(), first, last)
    }
}

/// The first visible line (counting scrollback) when the view is
/// `display_offset` lines up from the bottom of `history_size` lines of
/// scrollback.
pub open spec fn first_visible_line(display_offset: usize, history_size: usize) -> usize {
    if history_size >= display_offset {
        (history_size - display_offset) as usize
    } else {
        0
    }
}

/// Describes zone `z`.
pub fn zone_info(z: &CommandZone) -> (info: ZoneInfo)
    ensures
        describes(info, *z),
{
    ZoneInfo {
        start_line: z.start_line,
        end_line: z.end_line,
        is_prompt_line: true,
        is_running: z.state.is_running(),
        exit_code: z.state.exit_code(),
        command: match &z.command {
            Some(c) => Some(c.clone()),
            None => None,
        },
    }
}

/// Describes the zones that meet the visible lines: `screen_lines` lines
/// from `first_visible_line(display_offset, history_size)` on.
pub fn build_zone_info(
    zones: &ZoneManager,
    display_offset: usize,
    screen_lines: usize,
    history_size: usize,
) -> (r: Vec<ZoneInfo>)
    requires
        first_visible_line(display_offset, history_size) + screen_lines <= usize::MAX,
    ensures
        r@.len() == zones_meeting(
            zones.zones_view(),
            first_visible_line(display_offset, history_size),
            first_visible_line(display_offset, history_size) + screen_lines,
        ).len(),
        forall|i: int|
            0 <= i < r@.len() ==> describes(
                #[trigger] r@[i],
                zones_meeting(
                    zones.zones_view(),
                    first_visible_line(display_offset, history_size),
                    first_visible_line(display_offset, history_size) + screen_lines,
                )[i],
            ),
{
    let first = history_size.saturating_sub(display_offset);
    let last = first + screen_lines;
    let zs = zones.as_slice();
    let mut out: Vec<ZoneInfo> = Vec::new();
    let mut k: usize = 0;
    assert(zs@.take(0) =~= Seq::<CommandZone>::empty());
    while k < zs.len()
        invariant
            k <= zs@.len(),
            zs@ == zones.zones_view(),
            first == first_visible_line(display_offset, history_size),
            last == first + screen_lines,
            out@.len() == zones_meeting(zs@.take(k as int), first, last as int).len(),
            forall|i: int|
                0 <= i < out@.len() ==> describes(
                    #[trigger] out@[i],
                    zones_meeting(zs@.take(k as int), first, last as int)[i],
                ),
        decreases zs@.len() - k,
    {
        let z = &zs[k];
        proof {
            assert(zs@.take(k + 1).drop_last() =~= zs@.take(k as int));
            assert(zs@.take(k + 1).last() == *z);
        }
        let zone_end = match z.end_line {
            Some(e) => e,
            None => usize::MAX,
        };
        if z.start_line < last && zone_end > first {
            let info = zone_info(z);
            out.push(info);
        }
        k = k + 1;
    }
    assert(zs@.take(zs@.len() as int) =~= zs@);
    out
}

/// Describes the newest zone containing `line`.
pub fn zone_at_line(zones: &ZoneManager, line: usize) -> (r: Option<ZoneInfo>)
    ensures
        (match r {
            Some(info) => last_containing(zones.zones_view(), line) matches Some(i) && describes(
                info,
                zones.zones_view()[i],
            ),
            None => last_containing(zones.zones_view(), line) is None,
        }),
{
    match zones.zone_at_line(line) {
        Some(z) => Some(zone_info(z)),
        None => None,
    }
}

/// The first line of the prompt before the one at `current_line`.
pub fn previous_prompt(zones: &ZoneManager, current_line: usize) -> (r: Option<usize>)
    ensures
        r == (match last_before(
            zones.zones_view(),
            last_containing(zones.zones_view(), current_line),
            current_line,
        ) {
            Some(i) => Some(zones.zones_view()[i].start_line),
            None => None,
        }),
{
    match zones.previous_prompt(current_line) {
        Some(z) => Some(z.start_line),
        None => None,
    }
}

/// The first line of the next prompt after `current_line`.
pub fn next_prompt(zones: &ZoneManager, current_line: usize) -> (r: Option<usize>)
    ensures
        r == (match first_after(zones.zones_view(), current_line) {
            Some(i) => Some(zones.zones_view()[i].start_line),
            None => None,
        }),
{
    match zones.next_prompt(current_line) {
        Some(z) => Some(z.start_line),
        None => None,
    }
}

/// The window of lines whose zones are described sits `display_offset`
/// lines above the bottom of the scrollback: its first line plus the
/// offset is the scrollback's size (while the offset is within it), the
/// bottom view starts right after the scrollback, and scrolling the view
/// back `k` more lines moves the window back `k` lines.
pub proof fn lemma_visible_window(display_offset: usize, history_size: usize, k: usize)
    ensures
        display_offset <= history_size ==> first_visible_line(display_offset, history_size) + display_offset
            == history_size,
        display_offset > history_size ==> first_visible_line(display_offset, history_size) == 0,
        first_visible_line(0, history_size) == history_size,
        display_offset + k <= history_size ==> first_visible_line((display_offset + k) as usize, history_size)
            + k == first_visible_line(display_offset, history_size),
{
}

/// The zones in `zones_meeting(zs, first, last)` are zones of `zs` that
/// meet the lines `first..last`, and every zone of `zs` that meets them
/// is among them.
pub proof fn lemma_zones_meeting(zs: Seq<CommandZone>, first: usize, last: int)
    ensures
        forall|i: int|
            0 <= i < zones_meeting(zs, first, last).len() ==> zs.contains(#[trigger] zones_meeting(zs, first, last)[i])
                && zone_meets(zones_meeting(zs, first, last)[i], first, last),
        forall|j: int|
            0 <= j < zs.len() && zone_meets(#[trigger] zs[j], first, last) ==> zones_meeting(zs, first, last).contains(
                zs[j],
            ),
    decreases zs.len(),
{
    if zs.len() > 0 {
        lemma_zones_meeting(zs.drop_last(), first, last);
        let r = zones_meeting(zs, first, last);
        let q = zones_meeting(zs.drop_last(), first, last);
        assert forall|i: int| 0 <= i < r.len() implies zs.contains(#[trigger] r[i]) && zone_meets(
            r[i],
            first,
            last,
        ) by {
            if i < q.len() {
                assert(r[i] == q[i]);
                let j = choose|j: int| 0 <= j < zs.drop_last().len() && zs.drop_last()[j] == q[i];
                assert(zs[j] == q[i]);
            } else {
                assert(r[i] == zs.last());
                assert(zs[zs.len() - 1] == zs.last());
            }
        }
        assert forall|j: int| 0 <= j < zs.len() && zone_meets(#[trigger] zs[j], first, last) implies r.contains(
            zs[j],
        ) by {
            if j < zs.len() - 1 {
                assert(zs.drop_last()[j] == zs[j]);
                let i = choose|i: int| 0 <= i < q.len() && q[i] == zs[j];
                if zone_meets(zs.last(), first, last) {
                    assert(r[i] == q[i]);
                } else {
                    assert(r == q);
                }
            } else {
                assert(r[r.len() - 1] == zs[j]);
            }
        }
    }
}

/// The zones described for a view scrolled `display_offset` lines back
/// over `history_size` lines of scrollback, `screen_lines` high, are the
/// zones that meet the lines from `history_size - display_offset` (0 when
/// the offset passes the scrollback) on, `screen_lines` of them; `r` is
/// what `build_zone_info` returns.
pub proof fn lemma_zone_info_window(
    zones: ZoneManager,
    display_offset: usize,
    screen_lines: usize,
    history_size: usize,
    r: Seq<ZoneInfo>,
)
    requires
        first_visible_line(display_offset, history_size) + screen_lines <= usize::MAX,
        r.len() == zones_meeting(
            zones.zones_view(),
            first_visible_line(display_offset, history_size),
            first_visible_line(display_offset, history_size) + screen_lines,
        ).len(),
        forall|i: int|
            0 <= i < r.len() ==> describes(
                #[trigger] r[i],
                zones_meeting(
                    zones.zones_view(),
                    first_visible_line(display_offset, history_size),
                    first_visible_line(display_offset, history_size) + screen_lines,
                )[i],
            ),
    ensures
        ({
            let first: int = if display_offset <= history_size { history_size - display_offset } else { 0 };
            &&& forall|i: int|
                0 <= i < r.len() ==> #[trigger] r[i].start_line < first + screen_lines && match r[i].end_line {
                    Some(e) => e > first,
                    None => true,
                }
            &&& forall|j: int|
                0 <= j < zones.zones_view().len() && (#[trigger] zones.zones_view()[j]).start_line < first
                    + screen_lines && (match zones.zones_view()[j].end_line {
                    Some(e) => e > first,
                    None => usize::MAX > first,
                }) ==> exists|i: int| 0 <= i < r.len() && r[i].start_line == zones.zones_view()[j].start_line
        }),
{
    let first = first_visible_line(display_offset, history_size);
    let last = first + screen_lines;
    let ms = zones_meeting(zones.zones_view(), first, last);
    lemma_zones_meeting(zones.zones_view(), first, last);
    assert forall|i: int| 0 <= i < r.len() implies #[trigger] r[i].start_line < first + screen_lines && match r[i].end_line {
        Some(e) => e > first,
        None => true,
    } by {
        assert(zone_meets(ms[i], first, last));
    }
    assert forall|j: int|
        0 <= j < zones.zones_view().len() && (#[trigger] zones.zones_view()[j]).start_line < first + screen_lines
            && (match zones.zones_view()[j].end_line {
            Some(e) => e > first,
            None => usize::MAX > first,
        }) implies exists|i: int| 0 <= i < r.len() && r[i].start_line == zones.zones_view()[j].start_line by {
        assert(zone_meets(zones.zones_view()[j], first, last));
        let i = choose|i: int| 0 <= i < ms.len() && ms[i] == zones.zones_view()[j];
        assert(describes(r[i], ms[i]));
    }
}

} // verus!
