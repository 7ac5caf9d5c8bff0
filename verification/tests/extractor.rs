use zterm_terminal::shell_integration::{LineChars, CommandState, CommandZone, TextBuffer, TextExtractor, ZoneId};
/// Mock buffer for testing
struct MockBuffer {
    lines: Vec<String>,
}

impl MockBuffer {
    fn new(lines: Vec<&str>) -> Self {
        Self {
            lines: lines.into_iter().map(String::from).collect(),
        }
    }
}

impl TextBuffer for MockBuffer {
    fn line_text(&self, line: usize) -> Option<String> {
        self.lines.get(line).cloned()
    }

    fn total_lines(&self) -> usize {
        self.lines.len()
    }

    // The trait's specification items: never called at run time.
    fn text_at(&self, _line: usize) -> Option<LineChars> {
        unreachable!()
    }

    fn line_count(&self) -> usize {
        unreachable!()
    }
}

fn make_zone(start: usize, end: Option<usize>, command: Option<&str>) -> CommandZone {
    let mut zone = CommandZone::new(ZoneId::new(0), CommandState::PromptStart, start);
    zone.end_line = end;
    zone.command = command.map(String::from);
    zone
}

// ===== extract_lines Tests =====

#[test]
fn extractor_test_extract_lines_basic() {
    let buffer = MockBuffer::new(vec!["line 0", "line 1", "line 2", "line 3"]);
    let lines = TextExtractor::extract_lines(&buffer, 1, Some(3));

    assert_eq!(lines, vec!["line 1", "line 2"]);
}

#[test]
fn extractor_test_extract_lines_open_ended() {
    let buffer = MockBuffer::new(vec!["line 0", "line 1", "line 2"]);
    let lines = TextExtractor::extract_lines(&buffer, 0, None);

    assert_eq!(lines.len(), 3);
}

#[test]
fn extractor_test_extract_lines_beyond_buffer() {
    let buffer = MockBuffer::new(vec!["line 0", "line 1"]);
    let lines = TextExtractor::extract_lines(&buffer, 0, Some(100));

    assert_eq!(lines.len(), 2);
}

#[test]
fn test_extract_lines_empty_range() {
    let buffer = MockBuffer::new(vec!["line 0", "line 1"]);
    let lines = TextExtractor::extract_lines(&buffer, 5, Some(10));

    assert!(lines.is_empty());
}

#[test]
fn test_extract_lines_single_line() {
    let buffer = MockBuffer::new(vec!["line 0", "line 1", "line 2"]);
    let lines = TextExtractor::extract_lines(&buffer, 1, Some(2));

    assert_eq!(lines, vec!["line 1"]);
}

// ===== extract_zone_text Tests =====

#[test]
fn test_extract_zone_text_full() {
    let buffer = MockBuffer::new(vec!["$ ls", "file1", "file2", "$ "]);
    let zone = make_zone(0, Some(4), None);

    let text = TextExtractor::extract_zone_text(&buffer, &zone);
    assert_eq!(text, "$ ls\nfile1\nfile2\n$ ");
}

#[test]
fn test_extract_zone_text_open() {
    let buffer = MockBuffer::new(vec!["$ ls", "file1", "file2"]);
    let zone = make_zone(0, None, None);

    let text = TextExtractor::extract_zone_text(&buffer, &zone);
    assert!(text.contains("file1"));
    assert!(text.contains("file2"));
}

// ===== extract_output Tests =====

#[test]
fn test_extract_output_basic() {
    let buffer = MockBuffer::new(vec!["$ ls", "file1", "file2", "$ "]);
    let zone = make_zone(0, Some(3), None);

    let output = TextExtractor::extract_output(&buffer, &zone);
    assert_eq!(output, Some("file1\nfile2".to_string()));
}

#[test]
fn test_extract_output_no_output() {
    let buffer = MockBuffer::new(vec!["$ echo", "$ "]);
    let zone = make_zone(0, Some(1), None);

    let output = TextExtractor::extract_output(&buffer, &zone);
    assert_eq!(output, Some(String::new()));
}

#[test]
fn test_extract_output_open_zone() {
    let buffer = MockBuffer::new(vec!["$ ls", "file1"]);
    let zone = make_zone(0, None, None);

    let output = TextExtractor::extract_output(&buffer, &zone);
    assert!(output.is_none());
}

// ===== extract_command Tests =====

#[test]
fn test_extract_command_from_zone() {
    let buffer = MockBuffer::new(vec!["$ ls -la"]);
    let zone = make_zone(0, Some(1), Some("ls -la"));

    let cmd = TextExtractor::extract_command(&buffer, &zone);
    assert_eq!(cmd, Some("ls -la".to_string()));
}

#[test]
fn test_extract_command_from_buffer() {
    let buffer = MockBuffer::new(vec!["$ ls -la", "output"]);
    let zone = make_zone(0, Some(2), None);

    let cmd = TextExtractor::extract_command(&buffer, &zone);
    assert_eq!(cmd, Some("ls -la".to_string()));
}

#[test]
fn test_extract_command_hash_prompt() {
    let buffer = MockBuffer::new(vec!["# rm -rf /tmp/test"]);
    let zone = make_zone(0, Some(1), None);

    let cmd = TextExtractor::extract_command(&buffer, &zone);
    assert_eq!(cmd, Some("rm -rf /tmp/test".to_string()));
}

#[test]
fn test_extract_command_gt_prompt() {
    let buffer = MockBuffer::new(vec!["PS> Get-Process"]);
    let zone = make_zone(0, Some(1), None);

    let cmd = TextExtractor::extract_command(&buffer, &zone);
    assert_eq!(cmd, Some("Get-Process".to_string()));
}

// ===== strip_prompt Tests =====

#[test]
fn test_strip_prompt_dollar() {
    assert_eq!(TextExtractor::strip_prompt("$ ls"), "ls");
    assert_eq!(TextExtractor::strip_prompt("user@host$ ls"), "ls");
}

#[test]
fn test_strip_prompt_hash() {
    assert_eq!(TextExtractor::strip_prompt("# rm"), "rm");
    assert_eq!(TextExtractor::strip_prompt("root@host# rm"), "rm");
}

#[test]
fn test_strip_prompt_percent() {
    assert_eq!(TextExtractor::strip_prompt("% ls"), "ls");
}

#[test]
fn test_strip_prompt_no_prompt() {
    assert_eq!(TextExtractor::strip_prompt("just text"), "just text");
}

// ===== Context Summary Tests =====

#[test]
fn test_context_summary_basic() {
    let buffer = MockBuffer::new(vec!["$ ls", "file1", "file2"]);
    let mut zone = make_zone(0, Some(3), Some("ls"));
    zone.working_directory = Some("/home/user".to_string());
    zone.state = CommandState::CommandFinished(0);

    let summary = TextExtractor::get_context_summary(&buffer, &zone, 100);

    assert_eq!(summary.command, Some("ls".to_string()));
    assert_eq!(summary.working_dir, Some("/home/user".to_string()));
    assert_eq!(summary.exit_code, Some(0));
    assert!(summary.output.is_some());
}

#[test]
fn test_context_summary_truncation() {
    let lines: Vec<&str> = (0..100).map(|_| "output line").collect();
    let mut all_lines = vec!["$ cmd"];
    all_lines.extend(lines);
    let buffer = MockBuffer::new(all_lines);

    let zone = make_zone(0, Some(101), Some("cmd"));

    let summary = TextExtractor::get_context_summary(&buffer, &zone, 10);

    let output = summary.output.unwrap();
    assert!(output.truncated);
    assert_eq!(output.line_count, 100);
}

#[test]
fn test_context_summary_no_truncation() {
    let buffer = MockBuffer::new(vec!["$ ls", "file1", "file2"]);
    let zone = make_zone(0, Some(3), Some("ls"));

    let summary = TextExtractor::get_context_summary(&buffer, &zone, 100);

    let output = summary.output.unwrap();
    assert!(!output.truncated);
}

#[test]
fn test_context_summary_to_ai_context() {
    let buffer = MockBuffer::new(vec!["$ ls", "file1"]);
    let mut zone = make_zone(0, Some(2), Some("ls"));
    zone.working_directory = Some("/home".to_string());
    zone.state = CommandState::CommandFinished(0);

    let summary = TextExtractor::get_context_summary(&buffer, &zone, 100);
    let ai_context = summary.to_ai_context();

    assert!(ai_context.contains("Command: ls"));
    assert!(ai_context.contains("Working Directory: /home"));
    assert!(ai_context.contains("Exit Code: 0"));
}

#[test]
fn test_context_summary_running_command() {
    let buffer = MockBuffer::new(vec!["$ long-running"]);
    let zone = make_zone(0, None, Some("long-running"));

    let summary = TextExtractor::get_context_summary(&buffer, &zone, 100);

    assert!(summary.exit_code.is_none());
    assert!(summary.output.is_none());
}

#[test]
fn extractor_strip_prompt_needs_text_after_prompt() {
    assert_eq!(TextExtractor::strip_prompt("  a$ "), "a$");
    assert_eq!(TextExtractor::strip_prompt("x$ >  y  "), ">  y");
    assert_eq!(TextExtractor::strip_prompt("   "), "");
}

#[test]
fn extractor_summary_truncation_text() {
    let lines: Vec<String> = (0..6).map(|i| format!("l{}", i)).collect();
    let mut all: Vec<&str> = vec!["$ cmd"];
    for l in &lines {
        all.push(l.as_str());
    }
    let buffer = MockBuffer::new(all);
    let zone = make_zone(0, Some(7), Some("cmd"));
    let summary = TextExtractor::get_context_summary(&buffer, &zone, 4);
    let output = summary.output.unwrap();
    assert_eq!(output.text, "l0\nl1\n... (2 lines omitted) ...\nl4\nl5");
    assert_eq!(output.line_count, 6);
    let text = TextExtractor::get_context_summary(&buffer, &zone, 100).to_ai_context();
    assert_eq!(text, "Command: cmd\nOutput (6 lines):\nl0\nl1\nl2\nl3\nl4\nl5");
}

#[test]
fn extractor_ai_context_negative_exit_code() {
    let buffer = MockBuffer::new(vec!["$ false"]);
    let mut zone = make_zone(0, None, None);
    zone.state = CommandState::CommandFinished(-3);
    let text = TextExtractor::get_context_summary(&buffer, &zone, 10).to_ai_context();
    assert_eq!(text, "Command: false\nExit Code: -3");
}
