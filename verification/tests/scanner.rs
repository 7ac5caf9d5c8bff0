use zterm_terminal::shell_integration::scanner::{find_param, param_pairs};
use zterm_terminal::shell_integration::scanner::{OscScanner, OscSequence, ScanState};
use zterm_terminal::shell_integration::JsonDataType;
// ========== 基础 OSC 133 测试 ==========

#[test]
fn test_osc_133_prompt_start() {
    let mut scanner = OscScanner::new();
    let data = b"\x1b]133;A\x07";
    let sequences = scanner.scan(data);

    assert_eq!(sequences.len(), 1);
    assert!(matches!(
        sequences[0],
        OscSequence::PromptStart { aid: None, json: None, .. }
    ));
}

#[test]
fn test_osc_133_command_start() {
    let mut scanner = OscScanner::new();
    let data = b"\x1b]133;B\x07";
    let sequences = scanner.scan(data);

    assert_eq!(sequences.len(), 1);
    assert!(matches!(sequences[0], OscSequence::CommandStart { aid: None }));
}

#[test]
fn test_osc_133_command_executing() {
    let mut scanner = OscScanner::new();
    let data = b"\x1b]133;C\x07";
    let sequences = scanner.scan(data);

    assert_eq!(sequences.len(), 1);
    assert!(matches!(sequences[0], OscSequence::CommandExecuting { aid: None }));
}

#[test]
fn test_osc_133_command_finished_no_exit_code() {
    let mut scanner = OscScanner::new();
    let data = b"\x1b]133;D\x07";
    let sequences = scanner.scan(data);

    assert_eq!(sequences.len(), 1);
    if let OscSequence::CommandFinished { exit_code, aid, json, .. } = &sequences[0] {
        assert_eq!(*exit_code, None);
        assert_eq!(*aid, None);
        assert!(json.is_none());
    } else {
        panic!("Expected CommandFinished, got {:?}", sequences[0]);
    }
}

#[test]
fn test_osc_133_command_finished_with_exit_code() {
    let mut scanner = OscScanner::new();
    let data = b"\x1b]133;D;0\x07";
    let sequences = scanner.scan(data);

    assert_eq!(sequences.len(), 1);
    if let OscSequence::CommandFinished { exit_code, aid, json, .. } = &sequences[0] {
        assert_eq!(*exit_code, Some(0));
        assert_eq!(*aid, None);
        assert!(json.is_none());
    } else {
        panic!("Expected CommandFinished, got {:?}", sequences[0]);
    }
}

#[test]
fn test_osc_133_command_finished_non_zero_exit() {
    let mut scanner = OscScanner::new();
    let data = b"\x1b]133;D;127\x07";
    let sequences = scanner.scan(data);

    assert_eq!(sequences.len(), 1);
    if let OscSequence::CommandFinished { exit_code, aid, json, .. } = &sequences[0] {
        assert_eq!(*exit_code, Some(127));
        assert_eq!(*aid, None);
        assert!(json.is_none());
    } else {
        panic!("Expected CommandFinished, got {:?}", sequences[0]);
    }
}

#[test]
fn test_osc_133_command_finished_negative_exit() {
    let mut scanner = OscScanner::new();
    let data = b"\x1b]133;D;-1\x07";
    let sequences = scanner.scan(data);

    assert_eq!(sequences.len(), 1);
    if let OscSequence::CommandFinished { exit_code, aid, json, .. } = &sequences[0] {
        assert_eq!(*exit_code, Some(-1));
        assert_eq!(*aid, None);
        assert!(json.is_none());
    } else {
        panic!("Expected CommandFinished, got {:?}", sequences[0]);
    }
}

// ========== OSC 633 测试 ==========

#[test]
fn test_osc_633_working_directory() {
    let mut scanner = OscScanner::new();
    let data = b"\x1b]633;P;Cwd=/home/user\x07";
    let sequences = scanner.scan(data);

    assert_eq!(sequences.len(), 1);
    if let OscSequence::WorkingDirectory(cwd) = &sequences[0] {
        assert_eq!(cwd, "/home/user");
    } else {
        panic!("Expected WorkingDirectory, got {:?}", sequences[0]);
    }
}

#[test]
fn test_osc_633_command_text() {
    let mut scanner = OscScanner::new();
    let data = b"\x1b]633;E;ls -la\x07";
    let sequences = scanner.scan(data);

    assert_eq!(sequences.len(), 1);
    if let OscSequence::CommandText(text) = &sequences[0] {
        assert_eq!(text, "ls -la");
    } else {
        panic!("Expected CommandText, got {:?}", sequences[0]);
    }
}

#[test]
fn scanner_test_osc_7_working_directory() {
    let mut scanner = OscScanner::new();
    let data = b"\x1b]7;file:///home/user/project\x07";
    let sequences = scanner.scan(data);

    assert_eq!(sequences.len(), 1);
    if let OscSequence::Osc7WorkingDirectory(cwd) = &sequences[0] {
        assert_eq!(cwd, "file:///home/user/project");
    } else {
        panic!("Expected Osc7WorkingDirectory, got {:?}", sequences[0]);
    }
}

// ========== OSC 终止符测试 ==========

#[test]
fn test_osc_with_st_terminator() {
    // ST (String Terminator) = ESC \
    let mut scanner = OscScanner::new();
    let data = b"\x1b]133;A\x1b\\";
    let sequences = scanner.scan(data);

    assert_eq!(sequences.len(), 1);
    assert!(matches!(
        sequences[0],
        OscSequence::PromptStart { aid: None, json: None, .. }
    ));
}

#[test]
fn test_osc_with_bel_terminator() {
    let mut scanner = OscScanner::new();
    let data = b"\x1b]133;B\x07";
    let sequences = scanner.scan(data);

    assert_eq!(sequences.len(), 1);
    assert!(matches!(sequences[0], OscSequence::CommandStart { aid: None }));
}

// ========== 缓冲区限制测试 (参考 WezTerm) ==========

#[test]
fn test_osc_buffer_limit() {
    // 创建一个只有 10 字节限制的扫描器
    let mut scanner = OscScanner::with_max_len(10);

    // 构造一个超过限制的 OSC 序列
    // OSC 0 用于设置窗口标题,可以包含任意文本
    let mut data = Vec::new();
    data.extend_from_slice(b"\x1b]0;");
    // 添加大量标题文本,超过 10 字节限制
    // 前面已经有 "0;" (2字节),再加 20 个 'A' 肯定超过 10 字节
    for _ in 0..20 {
        data.push(b'A');
    }
    data.push(0x07); // BEL

    scanner.scan(&data);

    // 检查缓冲区大小和 buffer_full 标志
    println!("Buffer len: {}, buffer_full: {}", scanner.buffer_len(), scanner.buffer_full());

    // buffer_full 标志应该被设置
    assert!(scanner.buffer_full(), "Buffer should be marked as full after exceeding limit (len={}, max={})",
            scanner.buffer_len(), scanner.max_len());
}

#[test]
fn test_osc_buffer_reset_on_new_sequence() {
    let mut scanner = OscScanner::with_max_len(20);

    // 第一个超长序列
    let mut data1 = Vec::new();
    data1.extend_from_slice(b"\x1b]0;");
    for _ in 0..50 {
        data1.push(b'X');
    }
    data1.push(0x07);

    scanner.scan(&data1);
    assert!(scanner.buffer_full(), "First sequence should trigger buffer_full");

    // 第二个正常序列应该重置 buffer_full
    let data2 = b"\x1b]133;B\x07";
    let sequences = scanner.scan(data2);

    assert_eq!(sequences.len(), 1);
    assert!(!scanner.buffer_full(), "buffer_full should be reset for new sequence");
    assert!(matches!(sequences[0], OscSequence::CommandStart { aid: None }));
}

// ========== 多序列测试 ==========

#[test]
fn test_multiple_osc_sequences() {
    let mut scanner = OscScanner::new();
    let data = b"\x1b]133;A\x07\x1b]133;B\x07\x1b]133;C\x07";
    let sequences = scanner.scan(data);

    assert_eq!(sequences.len(), 3);
    assert!(matches!(
        sequences[0],
        OscSequence::PromptStart { aid: None, json: None, .. }
    ));
    assert!(matches!(sequences[1], OscSequence::CommandStart { aid: None }));
    assert!(matches!(sequences[2], OscSequence::CommandExecuting { aid: None }));
}

// ========== 不完整序列测试 ==========

#[test]
fn test_incomplete_osc_sequence() {
    let mut scanner = OscScanner::new();
    // 没有终止符的序列
    let data = b"\x1b]133;A";
    let sequences = scanner.scan(data);

    // 应该不返回任何序列
    assert_eq!(sequences.len(), 0);
    // 但状态应该保持在 OscCollect
    assert_eq!(scanner.state(), ScanState::OscCollect);
}

#[test]
fn test_incremental_osc_parsing() {
    let mut scanner = OscScanner::new();

    // 分多次输入
    let part1 = b"\x1b]13";
    let sequences1 = scanner.scan(part1);
    assert_eq!(sequences1.len(), 0);

    let part2 = b"3;D;";
    let sequences2 = scanner.scan(part2);
    assert_eq!(sequences2.len(), 0);

    let part3 = b"42\x07";
    let sequences3 = scanner.scan(part3);
    assert_eq!(sequences3.len(), 1);

    if let OscSequence::CommandFinished { exit_code, aid, json, .. } = &sequences3[0] {
        assert_eq!(*exit_code, Some(42));
        assert_eq!(*aid, None);
        assert!(json.is_none());
    } else {
        panic!("Expected CommandFinished");
    }
}

// ========== 无效序列测试 ==========

#[test]
fn test_invalid_osc_command() {
    let mut scanner = OscScanner::new();
    // 不支持的 OSC 命令
    let data = b"\x1b]999;invalid\x07";
    let sequences = scanner.scan(data);

    // 应该静默忽略
    assert_eq!(sequences.len(), 0);
}

#[test]
fn test_malformed_osc_133() {
    let mut scanner = OscScanner::new();
    // 缺少子命令
    let data = b"\x1b]133\x07";
    let sequences = scanner.scan(data);

    assert_eq!(sequences.len(), 0);
}

#[test]
fn test_osc_with_utf8_content() {
    let mut scanner = OscScanner::new();
    let data = "ESC]633;E;echo 你好世界\x07"
        .replace("ESC", "\x1b")
        .into_bytes();
    let sequences = scanner.scan(&data);

    assert_eq!(sequences.len(), 1);
    if let OscSequence::CommandText(text) = &sequences[0] {
        assert_eq!(text, "echo 你好世界");
    } else {
        panic!("Expected CommandText");
    }
}

// ========== 边界情况测试 ==========

#[test]
fn test_empty_input() {
    let mut scanner = OscScanner::new();
    let sequences = scanner.scan(b"");
    assert_eq!(sequences.len(), 0);
}

#[test]
fn test_just_escape() {
    let mut scanner = OscScanner::new();
    let sequences = scanner.scan(b"\x1b");
    assert_eq!(sequences.len(), 0);
    assert_eq!(scanner.state(), ScanState::Escape);
}

#[test]
fn test_escape_without_osc() {
    let mut scanner = OscScanner::new();
    let data = b"\x1bXsomething";
    let sequences = scanner.scan(data);
    assert_eq!(sequences.len(), 0);
    assert_eq!(scanner.state(), ScanState::Ground);
}

// ========== OSC 133 扩展测试 (aid 参数) ==========

#[test]
fn test_osc_133_prompt_start_with_aid() {
    let mut scanner = OscScanner::new();
    let data = b"\x1b]133;A;aid=cmd_001\x07";
    let sequences = scanner.scan(data);

    assert_eq!(sequences.len(), 1);
    if let OscSequence::PromptStart { aid, json, .. } = &sequences[0] {
        assert_eq!(aid.as_deref(), Some("cmd_001"));
        assert!(json.is_none());
    } else {
        panic!("Expected PromptStart, got {:?}", sequences[0]);
    }
}

#[test]
fn test_osc_133_command_finished_with_aid() {
    let mut scanner = OscScanner::new();
    let data = b"\x1b]133;D;0;aid=cmd_001\x07";
    let sequences = scanner.scan(data);

    assert_eq!(sequences.len(), 1);
    if let OscSequence::CommandFinished { exit_code, aid, json, .. } = &sequences[0] {
        assert_eq!(*exit_code, Some(0));
        assert_eq!(aid.as_deref(), Some("cmd_001"));
        assert!(json.is_none());
    } else {
        panic!("Expected CommandFinished, got {:?}", sequences[0]);
    }
}

// ========== OSC 531 JSON 数据测试 ==========

#[test]
fn test_osc_531_simple_json() {
    let mut scanner = OscScanner::new();
    let data = b"\x1b]531;{\"type\":\"custom\",\"value\":42}\x07";
    let sequences = scanner.scan(data);

    assert_eq!(sequences.len(), 1);
    if let OscSequence::JsonData { data_type, payload } = &sequences[0] {
        assert_eq!(*data_type, JsonDataType::Custom);
        assert_eq!(payload.get("type").and_then(|v| v.as_str()), Some("custom"));
        assert_eq!(payload.get("value").and_then(|v| v.as_i64()), Some(42));
    } else {
        panic!("Expected JsonData, got {:?}", sequences[0]);
    }
}

#[test]
fn test_osc_531_command_start_metadata() {
    let mut scanner = OscScanner::new();
    let json = r#"{"type":"command_start","command":"ls -la","cwd":"/home/user"}"#;
    let data = format!("\x1b]531;{}\x07", json);
    let sequences = scanner.scan(data.as_bytes());

    assert_eq!(sequences.len(), 1);
    if let OscSequence::JsonData { data_type, payload } = &sequences[0] {
        assert_eq!(*data_type, JsonDataType::CommandMeta);
        assert_eq!(payload.get("type").and_then(|v| v.as_str()), Some("command_start"));
        assert_eq!(payload.get("command").and_then(|v| v.as_str()), Some("ls -la"));
    } else {
        panic!("Expected JsonData, got {:?}", sequences[0]);
    }
}

#[test]
fn test_osc_531_escaped_json() {
    let mut scanner = OscScanner::new();
    // PowerShell 流程:
    // 1. ConvertTo-Json: {"text":"line1\nline2"} (JSON中\n是两个字符: \ 和 n)
    // 2. __ZTerm-Escape-Value: 转义反斜杠 \ (0x5c) → \x5c
    // 3. 结果: {"text":"line1\x5cnline2"}

    // 构造转义后的 JSON
    let mut escaped_json = Vec::new();
    escaped_json.extend_from_slice(b"{\"type\":\"custom\",\"text\":\"line1");
    // 添加转义的反斜杠: \x5c (表示JSON中的\字符)
    escaped_json.push(b'\\');
    escaped_json.push(b'x');
    escaped_json.push(b'5');
    escaped_json.push(b'c');
    // 添加 n (JSON中\n的第二个字符)
    escaped_json.push(b'n');
    escaped_json.extend_from_slice(b"line2\"}");

    let mut data = Vec::new();
    data.push(0x1b); // ESC
    data.extend_from_slice(b"]531;");
    data.extend_from_slice(&escaped_json);
    data.push(0x07); // BEL

    let sequences = scanner.scan(&data);

    assert_eq!(sequences.len(), 1);
    if let OscSequence::JsonData { payload, .. } = &sequences[0] {
        // 反转义得到 {"text":"line1\nline2"}, JSON解析后文本包含换行符
        assert_eq!(payload.get("text").and_then(|v| v.as_str()), Some("line1\nline2"));
    } else {
        panic!("Expected JsonData, got {:?}", sequences[0]);
    }
}

// ========== 反转义功能测试 ==========

#[test]
fn test_unescape_value() {
    assert_eq!(OscScanner::unescape_value("hello"), "hello");
    assert_eq!(OscScanner::unescape_value("hello\\x0aworld"), "hello\nworld");
    assert_eq!(OscScanner::unescape_value("hello\\x20world"), "hello world");
    assert_eq!(OscScanner::unescape_value("a\\\\b"), "a\\b");
    assert_eq!(OscScanner::unescape_value("a\\nb"), "a\nb");
}

#[test]
fn test_parse_params() {
    let params = OscScanner::parse_params("aid=cmd_001;json={...}");
    assert_eq!(params.get("aid"), Some(&"cmd_001".to_string()));
    assert_eq!(params.get("json"), Some(&"{...}".to_string()));

    let params = OscScanner::parse_params("0;aid=test");
    assert_eq!(params.get("aid"), Some(&"test".to_string()));
}

#[test]
fn test_scanner_json_param_kept_as_text() {
    let mut scanner = OscScanner::new();
    let seqs = scanner.scan(b"\x1b]133;A;aid=b1;json={\\x22cwd\\x22:\\x22/tmp\\x22}\x07");
    assert_eq!(seqs.len(), 1);
    match &seqs[0] {
        OscSequence::PromptStart { aid, json, json_text } => {
            assert_eq!(aid.as_deref(), Some("b1"));
            assert!(json.is_none());
            assert_eq!(json_text.as_deref(), Some("{\"cwd\":\"/tmp\"}"));
        }
        other => panic!("unexpected {:?}", other),
    }
}

#[test]
fn test_scanner_exit_code_param() {
    let mut scanner = OscScanner::new();
    let seqs = scanner.scan(b"\x1b]133;D;exit_code=3;aid=z\x07\x1b]133;D;abc\x07");
    assert_eq!(seqs.len(), 2);
    assert!(matches!(seqs[0], OscSequence::CommandFinished { exit_code: Some(3), .. }));
    assert!(matches!(seqs[1], OscSequence::CommandFinished { exit_code: None, .. }));
}

#[test]
fn test_scanner_unknown_133_letter() {
    let mut scanner = OscScanner::new();
    assert!(scanner.scan(b"\x1b]133;Z\x07").is_empty());
    assert!(scanner.scan(b"\x1b]133;\x07").is_empty());
    assert!(scanner.scan(b"\x1b]633;X;y\x07").is_empty());
}

#[test]
fn test_scan_is_safe() {
    let scanner = OscScanner::new();
    assert!(scanner.scan_is_safe(b"\x1b]133;A\x07"));
    assert!(!scanner.scan_is_safe("\x1b]133;\u{e9}\x07".as_bytes()));
    assert!(scanner.scan_is_safe("\x1b]7;\u{e9}\x07".as_bytes()));
}

#[test]
fn test_scanner_buffer_bounded_and_escape_inside() {
    let mut scanner = OscScanner::with_max_len(4);
    scanner.scan(b"\x1b]12345");
    assert_eq!(scanner.buffer_len(), 4);
    assert!(scanner.buffer_full());
    let mut scanner = OscScanner::with_max_len(8);
    scanner.scan(b"\x1b]7;a\x1bb");
    assert_eq!(scanner.buffer_len(), 5);
    assert_eq!(scanner.state(), ScanState::OscCollect);
    assert_eq!(scanner.max_len(), 8);
}

#[test]
fn test_unescape_value_edges() {
    assert_eq!(OscScanner::unescape_value("\\x+5"), "\u{5}");
    assert_eq!(OscScanner::unescape_value("\\xzz!"), "\\xzz!");
    assert_eq!(OscScanner::unescape_value("\\x4"), "\\x4");
    assert_eq!(OscScanner::unescape_value("a\\qb\\"), "a\\qb\\");
    assert_eq!(OscScanner::unescape_value("\\xe9"), "\u{e9}");
}

#[test]
fn test_param_helpers() {
    let pairs = param_pairs(" a = 1 ;b=2;noeq;a=3");
    assert_eq!(pairs.len(), 3);
    assert_eq!(pairs[0], ("a".to_string(), "1".to_string()));
    assert_eq!(find_param(" a = 1 ;b=2;noeq;a=3", "a"), Some("3".to_string()));
    assert_eq!(find_param("b=2", "a"), None);
}

#[test]
fn test_osc_531_kinds() {
    let mut scanner = OscScanner::new();
    let seqs = scanner.scan(b"\x1b]531;{\"type\":\"prompt_start\"}\x07\x1b]531;{\"type\":\"directory_changed\"}\x07\x1b]531;[1,2]\x07\x1b]531;not json\x07");
    assert_eq!(seqs.len(), 3);
    assert!(matches!(seqs[0], OscSequence::JsonData { data_type: JsonDataType::BlockMeta, .. }));
    assert!(matches!(seqs[1], OscSequence::JsonData { data_type: JsonDataType::OutputMeta, .. }));
    assert!(matches!(seqs[2], OscSequence::JsonData { data_type: JsonDataType::Custom, .. }));
}
