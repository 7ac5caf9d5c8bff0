//! Text extraction from a terminal buffer: the lines of a zone, a command's
//! output, the command line with its prompt stripped, and a summary of a
//! command for an assistant.
use vstd::prelude::*;

use super::scanner::opt_chars;
use super::zone::{CommandState, CommandZone};
use crate::text::{decimal, push_decimal, push_signed_decimal, push_str, signed_decimal, trim, trimmed, trimmed_start};

verus! {

/// The text of a line as characters, the type of `TextBuffer::text_at`.
pub type LineChars = Seq<char>;

/// A terminal buffer that text can be read from, implemented by its users.
/// An implementation promises that its methods report what the buffer
/// holds: `line_text` the text of a line (`text_at`), `total_lines` the
/// number of lines (`line_count`).
pub trait TextBuffer {
    /// The text the buffer holds at line `line`, if it has one.
    spec fn text_at(&self, line: usize) -> Option<LineChars>;

    /// The number of lines the buffer holds.
    spec fn line_count(&self) -> usize;

    /// The text of line `line`, if there is one.
    fn line_text(&self, line: usize) -> (r: Option<String>)
        ensures
            opt_chars(r) == self.text_at(line),
    ;

    /// The number of lines.
    fn total_lines(&self) -> (r: usize)
        ensures
            r == self.line_count(),
    ;
}

/// The texts present among `texts`, in order.
pub open spec fn present(texts: Seq<Option<String>>) -> Seq<Seq<char>>
    decreases texts.len(),
{
    if texts.len() == 0 {
        Seq::empty()
    } else {
        let rest = present(texts.drop_last());
        match texts.last() {
            Some(t) => rest.push(t@),
            None => rest,
        }
    }
}

/// The number of lines that lines `start..end` span (none when `end` is not
/// past `start`).
pub open spec fn lines_spanned(start: usize, end: usize) -> int {
    if start < end {
        end - start
    } else {
        0
    }
}

/// The texts among `texts` that are present, in order.
pub open spec fn present_texts(texts: Seq<Option<Seq<char>>>) -> Seq<Seq<char>>
    decreases texts.len(),
{
    if texts.len() == 0 {
        Seq::empty()
    } else {
        let rest = present_texts(texts.drop_last());
        match texts.last() {
            Some(t) => rest.push(t),
            None => rest,
        }
    }
}

/// The texts of strings, read as characters.
pub open spec fn text_views(texts: Seq<Option<String>>) -> Seq<Option<Seq<char>>> {
    texts.map_values(|t: Option<String>| opt_chars(t))
}

/// Keeping the present strings and reading them is reading the texts and
/// keeping the present ones.
pub proof fn lemma_present_views(texts: Seq<Option<String>>)
    ensures
        present(texts) == present_texts(text_views(texts)),
    decreases texts.len(),
{
    if texts.len() > 0 {
        lemma_present_views(texts.drop_last());
        assert(text_views(texts.drop_last()) =~= text_views(texts).drop_last());
    } else {
        assert(text_views(texts) =~= Seq::<Option<Seq<char>>>::empty());
    }
}

/// The end of the lines asked of a buffer: `end_line`, or the buffer's
/// line count when there is none, and at most that count.
pub open spec fn asked_end<B: TextBuffer>(b: &B, end_line: Option<usize>) -> usize {
    match end_line {
        Some(e) => if e < b.line_count() {
            e
        } else {
            b.line_count()
        },
        None => b.line_count(),
    }
}

/// What the buffer holds at lines `start..end`, line by line.
pub open spec fn texts_at<B: TextBuffer>(b: &B, start: usize, end: usize) -> Seq<Option<Seq<char>>> {
    Seq::new(lines_spanned(start, end) as nat, |k: int| b.text_at((start + k) as usize))
}

/// The texts that the buffer holds at lines `start..asked_end(b, end_line)`,
/// in order, lines without text left out.
pub open spec fn buffer_lines<B: TextBuffer>(b: &B, start: usize, end_line: Option<usize>) -> Seq<Seq<char>> {
    present_texts(texts_at(b, start, asked_end(b, end_line)))
}

/// The first line of a zone's output: the one after `start` (saturating).
pub open spec fn output_start(start: usize) -> usize {
    if start == usize::MAX {
        usize::MAX
    } else {
        (start + 1) as usize
    }
}

/// The command of a zone read from its first line: that line with its
/// prompt stripped, if the buffer holds it.
pub open spec fn command_from_line(line: Option<Seq<char>>) -> Option<Seq<char>> {
    match line {
        Some(t) => Some(stripped_prompt(t)),
        None => None,
    }
}

/// Whether `o` summarizes the output lines `lines`, keeping at most about
/// `max` of them (see `summarize_output`).
pub open spec fn summarizes(o: OutputSummary, lines: Seq<Seq<char>>, max: nat) -> bool {
    &&& o.line_count == lines.len()
    &&& o.truncated == (lines.len() > max)
    &&& o.text@ == joined(kept_lines(lines, max))
}

/// The lines joined with a newline between each two (`join("\n")`).
pub open spec fn joined(lines: Seq<Seq<char>>) -> Seq<char>
    decreases lines.len(),
{
    if lines.len() == 0 {
        Seq::empty()
    } else if lines.len() == 1 {
        lines[0]
    } else {
        joined(lines.drop_last()) + seq!['\n'] + lines.last()
    }
}

/// The views of a sequence of strings.
pub open spec fn views(lines: Seq<String>) -> Seq<Seq<char>> {
    lines.map_values(|s: String| s@)
}

/// Whether `c` ends a prompt.
pub open spec fn is_prompt_char(c: char) -> bool {
    c == '$' || c == '>' || c == '#' || c == '%'
}

/// Looking from position `k` of the trimmed line `t`, the command after
/// the first prompt character that is followed by some text; `t` itself
/// when there is none.
pub open spec fn stripped_from(t: Seq<char>, k: int) -> Seq<char>
    decreases t.len() - k,
{
    if k < 0 || k >= t.len() {
        t
    } else if is_prompt_char(t[k]) && trimmed_start(t.skip(k + 1)).len() > 0 {
        trimmed_start(t.skip(k + 1))
    } else {
        stripped_from(t, k + 1)
    }
}

/// A line with its prompt stripped: trimmed, and after the first prompt
/// character (`$`, `>`, `#`, `%`) followed by more text, that text with
/// leading white space removed.
pub open spec fn stripped_prompt(line: Seq<char>) -> Seq<char> {
    stripped_from(trimmed(line), 0)
}

/// The note that stands for the lines left out of a long output.
pub open spec fn omitted_note(n: nat) -> Seq<char> {
    "... ("@ + decimal(n) + " lines omitted) ..."@
}

/// The output lines kept in a summary: all of them, or, past `max`, the
/// first `max / 2`, a note on how many lines exceed `max`, and the last `max / 2`.
pub open spec fn kept_lines(lines: Seq<Seq<char>>, max: nat) -> Seq<Seq<char>> {
    if lines.len() > max {
        let half = max / 2;
        lines.take(half as int) + seq![omitted_note((lines.len() - max) as nat)] + lines.skip(lines.len() - half)
    } else {
        lines
    }
}

/// Summary of a command's output.
#[derive(Debug, Clone)]
pub struct OutputSummary {
    /// The output, possibly shortened.
    pub text: String,
    /// How many output lines there were.
    pub line_count: usize,
    /// Whether the output was shortened.
    pub truncated: bool,
}

/// A command summarized for an assistant.
#[derive(Debug, Clone)]
pub struct ContextSummary {
    /// The command.
    pub command: Option<String>,
    /// The working directory it ran in.
    pub working_dir: Option<String>,
    /// Its exit code, once it ended.
    pub exit_code: Option<i32>,
    /// Its output, once the zone is closed.
    pub output: Option<OutputSummary>,
}

/// The parts of an assistant context, in order.
pub open spec fn context_parts(c: ContextSummary) -> Seq<Seq<char>> {
    (match c.command {
        Some(cmd) => seq!["Command: "@ + cmd@],
        None => Seq::empty(),
    }) + (match c.working_dir {
        Some(dir) => seq!["Working Directory: "@ + dir@],
        None => Seq::empty(),
    }) + (match c.exit_code {
        Some(code) => seq!["Exit Code: "@ + signed_decimal(code as int)],
        None => Seq::empty(),
    }) + (match c.output {
        Some(o) => seq!["Output ("@ + decimal(o.line_count as nat) + " lines):"@, o.text@],
        None => Seq::empty(),
    })
}

/// Appending a string appends its view.
proof fn lemma_views_push(lines: Seq<String>, s: String)
    ensures
        views(lines.push(s)) == views(lines).push(s@),
{
    assert(views(lines.push(s)) =~= views(lines).push(s@));
}

/// The texts present among `texts`, in order.
pub fn lines_present(texts: Vec<Option<String>>) -> (lines: Vec<String>)
    ensures
        views(lines@) == present(texts@),
{
    let mut lines: Vec<String> = Vec::new();
    let mut texts = texts;
    let ghost all = texts@;
    let mut rest: Vec<Option<String>> = Vec::new();
    let ghost mut done: Seq<Option<String>> = Seq::empty();
    let mut i: usize = 0;
    let n = texts.len();
    while i < n
        invariant
            n == all.len(),
            i <= n,
            texts@ == all,
            views(lines@) == present(all.take(i as int)),
        decreases n - i,
    {
        let item = &texts[i];
        assert(all.take(i + 1).drop_last() =~= all.take(i as int));
        match item {
            Some(t) => {
                lines.push(t.clone());
                assert(views(lines@) =~= present(all.take(i as int)).push(t@));
            },
            None => {},
        }
        i = i + 1;
    }
    assert(all.take(n as int) =~= all);
    lines
}

/// The lines joined with a newline between each two.
pub fn join_lines(lines: &Vec<String>) -> (s: String)
    ensures
        s@ == joined(views(lines@)),
{
    let mut s = String::new();
    let mut i: usize = 0;
    while i < lines.len()
        invariant
            i <= lines@.len(),
            s@ == joined(views(lines@).take(i as int)),
        decreases lines@.len() - i,
    {
        let ghost v = views(lines@);
        assert(v.take(i + 1).drop_last() =~= v.take(i as int));
        if i > 0 {
            push_str(&mut s, "\n");
            proof {
                reveal_strlit("\n");
            }
        } else {
            assert(v.take(0) =~= Seq::<Seq<char>>::empty());
        }
        push_str(&mut s, lines[i].as_str());
        assert(v.take(i + 1).last() == lines@[i as int]@);
        i = i + 1;
    }
    assert(views(lines@).take(lines@.len() as int) =~= views(lines@));
    s
}

/// Strips the prompt off a line (see `stripped_prompt`).
pub fn strip_prompt(line: &str) -> (r: String)
    ensures
        r@ == stripped_prompt(line@),
{
    let t = trim(line);
    let ts = t.as_str();
    let n = ts.unicode_len();
    let mut k: usize = 0;
    while k < n
        invariant
            n == ts@.len(),
            ts@ == trimmed(line@),
            k <= n,
            stripped_prompt(line@) == stripped_from(ts@, k as int),
        decreases n - k,
    {
        let c = ts.get_char(k);
        if c == '$' || c == '>' || c == '#' || c == '%' {
            let after = ts.substring_char(k + 1, n);
            assert(after@ =~= ts@.skip(k + 1));
            let rest = trim_start_str(after);
            if rest.unicode_len() > 0 {
                return rest;
            }
        }
        k = k + 1;
    }
    t
}

/// `s` without its leading white space.
fn trim_start_str(s: &str) -> (r: String)
    ensures
        r@ == trimmed_start(s@),
{
    let n = s.unicode_len();
    let mut start: usize = 0;
    proof {
        assert(s@.skip(0) =~= s@);
    }
    while start < n && crate::text::char_is_white_space(s.get_char(start))
        invariant
            n == s@.len(),
            start <= n,
            trimmed_start(s@) == trimmed_start(s@.skip(start as int)),
        decreases n - start,
    {
        proof {
            assert(s@.skip(start as int).drop_first() =~= s@.skip(start + 1));
        }
        start = start + 1;
    }
    let rest = s.substring_char(start, n);
    assert(rest@ =~= s@.skip(start as int));
    rest.to_owned()
}

/// The summary of a command's output lines, keeping at most about
/// `max_output_lines` of them (see `kept_lines`).
pub fn summarize_output(output_lines: Vec<String>, max_output_lines: usize) -> (o: OutputSummary)
    ensures
        o.line_count == output_lines@.len(),
        o.truncated == (output_lines@.len() > max_output_lines),
        o.text@ == joined(kept_lines(views(output_lines@), max_output_lines as nat)),
{
    let total = output_lines.len();
    let truncated = total > max_output_lines;
    let lines = if truncated {
        let half = max_output_lines / 2;
        let mut result: Vec<String> = Vec::new();
        let mut i: usize = 0;
        while i < half
            invariant
                half == max_output_lines / 2,
                total == output_lines@.len(),
                total > max_output_lines,
                i <= half,
                views(result@) == views(output_lines@).take(i as int),
            decreases half - i,
        {
            let ghost prev = result@;
            let line = output_lines[i].clone();
            result.push(line);
            proof {
                lemma_views_push(prev, line);
                assert(views(output_lines@).take(i + 1) =~= views(output_lines@).take(i as int).push(line@));
            }
            i = i + 1;
        }
        let mut note = String::new();
        push_str(&mut note, "... (");
        push_decimal(&mut note, (total - max_output_lines) as u64);
        push_str(&mut note, " lines omitted) ...");
        result.push(note);
        let ghost head = views(result@);
        let mut j: usize = total - half;
        while j < total
            invariant
                half == max_output_lines / 2,
                total == output_lines@.len(),
                total > max_output_lines,
                total - half <= j <= total,
                views(result@) == head + views(output_lines@).subrange(total - half, j as int),
            decreases total - j,
        {
            let ghost prev = result@;
            let line = output_lines[j].clone();
            result.push(line);
            proof {
                lemma_views_push(prev, line);
                assert(head + views(output_lines@).subrange(total - half, j + 1) =~= (head + views(
                    output_lines@,
                ).subrange(total - half, j as int)).push(line@));
            }
            j = j + 1;
        }
        proof {
            let v = views(output_lines@);
            assert(v.subrange(total - half, total as int) =~= v.skip(total - half));
            assert(views(result@) =~= kept_lines(v, max_output_lines as nat));
        }
        result
    } else {
        output_lines
    };
    let text = join_lines(&lines);
    OutputSummary { text, line_count: total, truncated }
}

/// Extracts text from a terminal buffer.
pub struct TextExtractor;

impl TextExtractor {
    /// The texts of lines `start_line..end` (the end being `end_line`, or
    /// the buffer's line count when there is none, and at most that count)
    /// that the buffer has (see `buffer_lines`): one buffer call per line
    /// asked, the lines it has kept in order (see `lines_present`).
    pub fn extract_lines<B: TextBuffer>(buffer: &B, start_line: usize, end_line: Option<usize>) -> (lines: Vec<
        String,
    >)
        ensures
            views(lines@) == buffer_lines(buffer, start_line, end_line),
    {
        let end = match end_line {
            Some(e) => e,
            None => buffer.total_lines(),
        };
        let total = buffer.total_lines();
        let stop = if end < total { end } else { total };
        assert(stop == asked_end(buffer, end_line));
        let mut texts: Vec<Option<String>> = Vec::new();
        let mut line = start_line;
        while line < stop
            invariant
                start_line <= line,
                line <= stop || line == start_line,
                texts@.len() == line - start_line,
                forall|k: int|
                    0 <= k < texts@.len() ==> opt_chars(#[trigger] texts@[k]) == buffer.text_at(
                        (start_line + k) as usize,
                    ),
            decreases stop - line,
        {
            let t = buffer.line_text(line);
            texts.push(t);
            line = line + 1;
        }
        let ghost asked = texts@;
        assert(text_views(asked) =~= texts_at(buffer, start_line, stop));
        let lines = lines_present(texts);
        proof {
            lemma_present_views(asked);
        }
        lines
    }

    /// The text of a zone: its lines (see `extract_lines`) joined with
    /// newlines.
    pub fn extract_zone_text<B: TextBuffer>(buffer: &B, zone: &CommandZone) -> (s: String)
        ensures
            s@ == joined(buffer_lines(buffer, zone.start_line, zone.end_line)),
    {
        let lines = Self::extract_lines(buffer, zone.start_line, zone.end_line);
        join_lines(&lines)
    }

    /// The output of a closed zone: the lines after its first one (see
    /// `extract_lines`), joined with newlines (empty when there are none);
    /// `None` while the zone is open.
    pub fn extract_output<B: TextBuffer>(buffer: &B, zone: &CommandZone) -> (r: Option<String>)
        ensures
            (match zone.end_line {
                Some(e) => r matches Some(s) && s@ == joined(
                    buffer_lines(buffer, output_start(zone.start_line), Some(e)),
                ),
                None => r is None,
            }),
    {
        let output_start = zone.start_line.saturating_add(1);
        let end = match zone.end_line {
            Some(e) => e,
            None => {
                return None;
            },
        };
        if output_start >= end {
            assert(texts_at(buffer, output_start, asked_end(buffer, Some(end))) =~= Seq::<
                Option<Seq<char>>,
            >::empty());
            return Some(String::new());
        }
        let lines = Self::extract_lines(buffer, output_start, Some(end));
        Some(join_lines(&lines))
    }

    /// The command of a zone: the one reported by the shell, else the
    /// zone's first line with its prompt stripped.
    pub fn extract_command<B: TextBuffer>(buffer: &B, zone: &CommandZone) -> (r: Option<String>)
        ensures
            zone.command is Some ==> r == zone.command,
            zone.command is None ==> opt_chars(r) == command_from_line(buffer.text_at(zone.start_line)),
    {
        match &zone.command {
            Some(cmd) => {
                return Some(cmd.clone());
            },
            None => {},
        }
        match buffer.line_text(zone.start_line) {
            Some(line) => Some(Self::strip_prompt(line.as_str())),
            None => None,
        }
    }

    /// Strips the prompt off a line (see `stripped_prompt`).
    pub fn strip_prompt(line: &str) -> (r: String)
        ensures
            r@ == stripped_prompt(line@),
    {
        strip_prompt(line)
    }

    /// A summary of a zone for an assistant: its command, working directory
    /// and exit code, and, once the zone is closed, its output after the
    /// first line, kept to about `max_output_lines` lines.
    pub fn get_context_summary<B: TextBuffer>(buffer: &B, zone: &CommandZone, max_output_lines: usize) -> (s:
        ContextSummary)
        ensures
            zone.command is Some ==> s.command == zone.command,
            s.working_dir == zone.working_directory,
            s.exit_code == (match zone.state {
                CommandState::CommandFinished(c) => Some(c),
                _ => None,
            }),
            zone.command is None ==> opt_chars(s.command) == command_from_line(buffer.text_at(zone.start_line)),
            (match zone.end_line {
                Some(e) => s.output matches Some(o) && summarizes(
                    o,
                    buffer_lines(buffer, output_start(zone.start_line), Some(e)),
                    max_output_lines as nat,
                ),
                None => s.output is None,
            }),
    {
        let command = Self::extract_command(buffer, zone);
        let working_dir = match &zone.working_directory {
            Some(d) => Some(d.clone()),
            None => None,
        };
        let exit_code = zone.state.exit_code();
        let output = match zone.end_line {
            Some(end_line) => {
                let output_start = zone.start_line.saturating_add(1);
                let output_lines = Self::extract_lines(buffer, output_start, Some(end_line));
                Some(summarize_output(output_lines, max_output_lines))
            },
            None => None,
        };
        ContextSummary { command, working_dir, exit_code, output }
    }
}

impl ContextSummary {
    /// The summary as text: a line each for the command, working directory
    /// and exit code that are known, then the output's line count and the
    /// output.
    pub fn to_ai_context(&self) -> (s: String)
        ensures
            s@ == joined(context_parts(*self)),
    {
        let mut parts: Vec<String> = Vec::new();
        match &self.command {
            Some(cmd) => {
                let mut p = String::new();
                push_str(&mut p, "Command: ");
                push_str(&mut p, cmd.as_str());
                parts.push(p);
            },
            None => {},
        }
        match &self.working_dir {
            Some(dir) => {
                let mut p = String::new();
                push_str(&mut p, "Working Directory: ");
                push_str(&mut p, dir.as_str());
                parts.push(p);
            },
            None => {},
        }
        match self.exit_code {
            Some(code) => {
                let mut p = String::new();
                push_str(&mut p, "Exit Code: ");
                push_signed_decimal(&mut p, code as i64);
                parts.push(p);
            },
            None => {},
        }
        match &self.output {
            Some(output) => {
                let mut p = String::new();
                push_str(&mut p, "Output (");
                push_decimal(&mut p, output.line_count as u64);
                push_str(&mut p, " lines):");
                parts.push(p);
                parts.push(output.text.clone());
            },
            None => {},
        }
        let ghost expected = context_parts(*self);
        assert(views(parts@) =~= expected);
        join_lines(&parts)
    }
}

} // verus!
