use zterm_terminal::shell_integration::{OscScanner, OscSequence};

#[test]
fn test_osc_scanner_integration() {
    let mut scanner = OscScanner::new();
    let data = b"\x1b]133;A\x07Hello World\x1b]133;B\x07ls -la\x1b]133;C\x07";
    let sequences = scanner.scan(data);
    assert_eq!(sequences.len(), 3);
    assert!(matches!(sequences[0], OscSequence::PromptStart { .. }));
    assert!(matches!(sequences[1], OscSequence::CommandStart { .. }));
    assert!(matches!(sequences[2], OscSequence::CommandExecuting { .. }));
}

#[test]
fn test_osc_scanner_with_exit_code() {
    let mut scanner = OscScanner::new();
    let data = b"\x1b]133;D;1\x07";
    let sequences = scanner.scan(data);
    assert_eq!(sequences.len(), 1);
    match &sequences[0] {
        OscSequence::CommandFinished { exit_code, .. } => {
            assert_eq!(*exit_code, Some(1));
        }
        _ => panic!("Expected CommandFinished"),
    }
}

#[test]
fn test_osc_scanner_mixed_with_normal_output() {
    let mut scanner = OscScanner::new();
    let data = b"user@host:~$ \x1b]133;A\x07\x1b]133;B\x07echo hello\r\nhello\r\n\x1b]133;D;0\x07";
    let sequences = scanner.scan(data);
    assert_eq!(sequences.len(), 3);
    assert!(matches!(sequences[0], OscSequence::PromptStart { .. }));
    assert!(matches!(sequences[1], OscSequence::CommandStart { .. }));
    assert!(matches!(sequences[2], OscSequence::CommandFinished { exit_code: Some(0), .. }));
}

#[test]
fn test_scanner_empty_input() {
    let mut scanner = OscScanner::new();
    let sequences = scanner.scan(b"");
    assert!(sequences.is_empty());
}

#[test]
fn test_scanner_no_osc_sequences() {
    let mut scanner = OscScanner::new();
    let sequences = scanner.scan(b"Hello World\r\nThis is normal text\r\n");
    assert!(sequences.is_empty());
}

#[test]
fn test_scanner_osc_133_a() {
    let mut scanner = OscScanner::new();
    let sequences = scanner.scan(b"\x1b]133;A\x07");
    assert_eq!(sequences.len(), 1);
    assert!(matches!(sequences[0], OscSequence::PromptStart { .. }));
}

#[test]
fn test_scanner_osc_133_b() {
    let mut scanner = OscScanner::new();
    let sequences = scanner.scan(b"\x1b]133;B\x07");
    assert_eq!(sequences.len(), 1);
    assert!(matches!(sequences[0], OscSequence::CommandStart { .. }));
}

#[test]
fn test_scanner_osc_133_c() {
    let mut scanner = OscScanner::new();
    let sequences = scanner.scan(b"\x1b]133;C\x07");
    assert_eq!(sequences.len(), 1);
    assert!(matches!(sequences[0], OscSequence::CommandExecuting { .. }));
}

#[test]
fn test_scanner_osc_133_d_success() {
    let mut scanner = OscScanner::new();
    let sequences = scanner.scan(b"\x1b]133;D;0\x07");
    assert_eq!(sequences.len(), 1);
    assert!(matches!(sequences[0], OscSequence::CommandFinished { exit_code: Some(0), .. }));
}

#[test]
fn test_scanner_osc_133_d_failure() {
    let mut scanner = OscScanner::new();
    let sequences = scanner.scan(b"\x1b]133;D;1\x07");
    assert_eq!(sequences.len(), 1);
    assert!(matches!(sequences[0], OscSequence::CommandFinished { exit_code: Some(1), .. }));
}

#[test]
fn test_scanner_osc_133_d_negative_exit_code() {
    let mut scanner = OscScanner::new();
    let sequences = scanner.scan(b"\x1b]133;D;-1\x07");
    assert_eq!(sequences.len(), 1);
    assert!(matches!(sequences[0], OscSequence::CommandFinished { exit_code: Some(-1), .. }));
}

#[test]
fn test_scanner_osc_133_d_large_exit_code() {
    let mut scanner = OscScanner::new();
    let sequences = scanner.scan(b"\x1b]133;D;255\x07");
    assert_eq!(sequences.len(), 1);
    assert!(matches!(sequences[0], OscSequence::CommandFinished { exit_code: Some(255), .. }));
}

#[test]
fn test_scanner_osc_633_e_simple() {
    let mut scanner = OscScanner::new();
    let sequences = scanner.scan(b"\x1b]633;E;ls\x07");
    assert_eq!(sequences.len(), 1);
    match &sequences[0] {
        OscSequence::CommandText(command) => assert_eq!(command, "ls"),
        _ => panic!("Expected CommandText"),
    }
}

#[test]
fn test_scanner_osc_633_e_with_args() {
    let mut scanner = OscScanner::new();
    let sequences = scanner.scan(b"\x1b]633;E;ls%20-la\x07");
    assert_eq!(sequences.len(), 1);
    match &sequences[0] {
        OscSequence::CommandText(command) => assert_eq!(command, "ls -la"),
        _ => panic!("Expected CommandText"),
    }
}

#[test]
fn test_scanner_osc_633_e_complex_command() {
    let mut scanner = OscScanner::new();
    let sequences =
        scanner.scan(b"\x1b]633;E;echo%20%22hello%20world%22%20%7C%20grep%20hello\x07");
    assert_eq!(sequences.len(), 1);
    match &sequences[0] {
        OscSequence::CommandText(command) => {
            assert_eq!(command, "echo \"hello world\" | grep hello");
        }
        _ => panic!("Expected CommandText"),
    }
}

#[test]
fn test_osc_scanner_with_command_text() {
    let mut scanner = OscScanner::new();
    let data = b"\x1b]633;E;echo%20hello\x07";
    let sequences = scanner.scan(data);
    assert_eq!(sequences.len(), 1);
    match &sequences[0] {
        OscSequence::CommandText(command) => {
            assert_eq!(command, "echo hello");
        }
        _ => panic!("Expected CommandText"),
    }
}

#[test]
fn test_scanner_osc_633_p_cwd() {
    let mut scanner = OscScanner::new();
    let sequences = scanner.scan(b"\x1b]633;P;Cwd=/home/user\x07");
    assert_eq!(sequences.len(), 1);
    match &sequences[0] {
        OscSequence::WorkingDirectory(path) => assert_eq!(path, "/home/user"),
        _ => panic!("Expected WorkingDirectory"),
    }
}

#[test]
fn test_scanner_multiple_sequences() {
    let mut scanner = OscScanner::new();
    let data = b"\x1b]133;A\x07\x1b]133;B\x07\x1b]133;C\x07\x1b]133;D;0\x07";
    let sequences = scanner.scan(data);
    assert_eq!(sequences.len(), 4);
    assert!(matches!(sequences[0], OscSequence::PromptStart { .. }));
    assert!(matches!(sequences[1], OscSequence::CommandStart { .. }));
    assert!(matches!(sequences[2], OscSequence::CommandExecuting { .. }));
    assert!(matches!(sequences[3], OscSequence::CommandFinished { exit_code: Some(0), .. }));
}

#[test]
fn test_scanner_sequences_with_text_between() {
    let mut scanner = OscScanner::new();
    let data = b"user@host:~$ \x1b]133;A\x07prompt> \x1b]133;B\x07ls -la\r\n\x1b]133;C\x07output\r\n\x1b]133;D;0\x07";
    let sequences = scanner.scan(data);
    assert_eq!(sequences.len(), 4);
}

#[test]
fn test_scanner_split_across_chunks() {
    let mut scanner = OscScanner::new();
    let seq1 = scanner.scan(b"hello\x1b");
    assert!(seq1.is_empty());
    let seq2 = scanner.scan(b"]133;A\x07world");
    assert_eq!(seq2.len(), 1);
    assert!(matches!(seq2[0], OscSequence::PromptStart { .. }));
}

#[test]
fn test_scanner_consecutive_escapes() {
    let mut scanner = OscScanner::new();
    let sequences = scanner.scan(b"\x1b\x1b]133;A\x07");
    assert_eq!(sequences.len(), 1);
    assert!(matches!(sequences[0], OscSequence::PromptStart { .. }));
}

#[test]
fn test_scanner_st_terminator() {
    let mut scanner = OscScanner::new();
    let sequences = scanner.scan(b"\x1b]133;A\x1b\\");
    assert_eq!(sequences.len(), 1);
    assert!(matches!(sequences[0], OscSequence::PromptStart { .. }));
}

#[test]
fn test_scanner_ignores_other_osc() {
    let mut scanner = OscScanner::new();
    let sequences = scanner.scan(b"\x1b]0;My Title\x07");
    assert!(sequences.is_empty());
    let sequences = scanner.scan(b"\x1b]52;c;SGVsbG8=\x07");
    assert!(sequences.is_empty());
}

#[test]
fn test_scanner_reset_between_sessions() {
    let mut scanner = OscScanner::new();
    let seq1 = scanner.scan(b"\x1b]133;A\x07");
    assert_eq!(seq1.len(), 1);
    let seq2 = scanner.scan(b"\x1b]133;B\x07");
    assert_eq!(seq2.len(), 1);
    assert!(matches!(seq2[0], OscSequence::CommandStart { .. }));
}
