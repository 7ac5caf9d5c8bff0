use zterm_terminal::event::{ShellIntegrationEvent, TerminalEvent};
use zterm_terminal::grid::{Color, CursorShape, Intensity, TerminalModes, TerminalState, UnderlineStyle};
use zterm_terminal::shell_integration::{JsonDataType, OscSequence};
use zterm_terminal::vte_performer::VtePerformer;

fn ps(v: &[&[u16]]) -> Vec<Vec<u16>> {
    v.iter().map(|p| p.to_vec()).collect()
}

fn print_str(p: &mut VtePerformer, s: &mut TerminalState, text: &str) {
    for c in text.chars() {
        p.print(s, c);
    }
}

#[test]
fn test_print_writes_and_marks_dirty() {
    let mut s = TerminalState::new(5, 10, 100);
    let mut p = VtePerformer::new();
    print_str(&mut p, &mut s, "hi");
    assert_eq!(s.cursor().x, 2);
    assert_eq!(s.screen().get_line_text(0), Some("hi".to_string()));
    assert!(p.take_needs_wakeup());
    assert!(!p.take_needs_wakeup());
}

#[test]
fn test_execute_controls() {
    let mut s = TerminalState::new(5, 20, 100);
    let mut p = VtePerformer::new();
    print_str(&mut p, &mut s, "abc");
    p.execute(&mut s, 0x08);
    assert_eq!(s.cursor().x, 2);
    p.execute(&mut s, 0x09);
    assert_eq!(s.cursor().x, 8);
    p.execute(&mut s, 0x0d);
    assert_eq!(s.cursor().x, 0);
    p.execute(&mut s, 0x0a);
    assert_eq!(s.cursor().y, 1);
    p.execute(&mut s, 0x07);
    let events = p.take_events();
    assert_eq!(events.len(), 1);
    assert!(matches!(events[0], TerminalEvent::BellRing));
}

#[test]
fn test_tab_stops_at_last_column() {
    let mut s = TerminalState::new(5, 10, 100);
    let mut p = VtePerformer::new();
    s.set_cursor_pos(8, 0);
    p.execute(&mut s, 0x09);
    assert_eq!(s.cursor().x, 9);
}

#[test]
fn test_sgr_sequence() {
    let mut s = TerminalState::new(5, 10, 100);
    let mut p = VtePerformer::new();
    p.csi_dispatch(&mut s, &ps(&[&[1], &[4], &[31], &[44]]), &[], false, 'm');
    let a = s.attrs();
    assert_eq!(a.intensity(), Intensity::Bold);
    assert_eq!(a.underline(), UnderlineStyle::Single);
    assert_eq!(a.foreground(), Color::Indexed(1));
    assert_eq!(a.background(), Color::Indexed(4));
    p.csi_dispatch(&mut s, &ps(&[&[38], &[2], &[10], &[20], &[300], &[48], &[5], &[200]]), &[], false, 'm');
    assert_eq!(s.attrs().foreground(), Color::Rgb { r: 10, g: 20, b: 44 });
    assert_eq!(s.attrs().background(), Color::Indexed(200));
    p.csi_dispatch(&mut s, &ps(&[&[0]]), &[], false, 'm');
    assert_eq!(s.attrs().intensity(), Intensity::Normal);
    assert_eq!(s.attrs().foreground(), Color::DefaultForeground);
    p.csi_dispatch(&mut s, &ps(&[&[95], &[103], &[3]]), &[], false, 'm');
    assert_eq!(s.attrs().foreground(), Color::Indexed(13));
    assert_eq!(s.attrs().background(), Color::Indexed(11));
    assert!(s.attrs().italic());
}

#[test]
fn test_cursor_movement_csi() {
    let mut s = TerminalState::new(10, 20, 100);
    let mut p = VtePerformer::new();
    p.csi_dispatch(&mut s, &ps(&[&[5], &[7]]), &[], false, 'H');
    assert_eq!((s.cursor().x, s.cursor().y), (6, 4));
    p.csi_dispatch(&mut s, &ps(&[&[2]]), &[], false, 'A');
    assert_eq!(s.cursor().y, 2);
    p.csi_dispatch(&mut s, &ps(&[]), &[], false, 'B');
    assert_eq!(s.cursor().y, 3);
    p.csi_dispatch(&mut s, &ps(&[&[100]]), &[], false, 'C');
    assert_eq!(s.cursor().x, 19);
    p.csi_dispatch(&mut s, &ps(&[&[0]]), &[], false, 'D');
    assert_eq!(s.cursor().x, 18);
    p.csi_dispatch(&mut s, &ps(&[&[3]]), &[], false, 'G');
    assert_eq!(s.cursor().x, 2);
    p.csi_dispatch(&mut s, &ps(&[&[9]]), &[], false, 'd');
    assert_eq!(s.cursor().y, 8);
    p.csi_dispatch(&mut s, &ps(&[&[2]]), &[], false, 'F');
    assert_eq!((s.cursor().x, s.cursor().y), (0, 6));
    p.csi_dispatch(&mut s, &ps(&[&[50]]), &[], false, 'E');
    assert_eq!((s.cursor().x, s.cursor().y), (0, 9));
}

#[test]
fn test_ignored_csi_does_nothing() {
    let mut s = TerminalState::new(10, 20, 100);
    let mut p = VtePerformer::new();
    p.csi_dispatch(&mut s, &ps(&[&[5], &[7]]), &[], true, 'H');
    assert_eq!((s.cursor().x, s.cursor().y), (0, 0));
    assert!(!p.take_needs_wakeup());
}

#[test]
fn test_erase_and_edit_chars() {
    let mut s = TerminalState::new(5, 10, 100);
    let mut p = VtePerformer::new();
    print_str(&mut p, &mut s, "abcdef");
    s.set_cursor_pos(1, 0);
    p.csi_dispatch(&mut s, &ps(&[&[2]]), &[], false, 'P');
    assert_eq!(s.screen().get_line_text(0), Some("adef".to_string()));
    p.csi_dispatch(&mut s, &ps(&[&[2]]), &[], false, '@');
    assert_eq!(s.screen().get_line_text(0), Some("a  def".to_string()));
    s.set_cursor_pos(3, 0);
    p.csi_dispatch(&mut s, &ps(&[&[2]]), &[], false, 'X');
    assert_eq!(s.screen().get_line_text(0), Some("a    f".to_string()));
    p.csi_dispatch(&mut s, &ps(&[]), &[], false, 'K');
    assert_eq!(s.screen().get_line_text(0), Some("a".to_string()));
}

#[test]
fn test_insert_delete_lines() {
    let mut s = TerminalState::new(3, 10, 0);
    let mut p = VtePerformer::new();
    print_str(&mut p, &mut s, "one");
    s.set_cursor_pos(0, 1);
    print_str(&mut p, &mut s, "two");
    s.set_cursor_pos(0, 0);
    p.csi_dispatch(&mut s, &ps(&[]), &[], false, 'L');
    assert_eq!(s.screen().get_line_text(0), Some("".to_string()));
    assert_eq!(s.screen().get_line_text(1), Some("one".to_string()));
    p.csi_dispatch(&mut s, &ps(&[&[1]]), &[], false, 'M');
    assert_eq!(s.screen().get_line_text(0), Some("one".to_string()));
    assert_eq!(s.screen().get_line_text(1), Some("two".to_string()));
}

#[test]
fn test_modes_and_cursor_style() {
    let mut s = TerminalState::new(5, 10, 100);
    let mut p = VtePerformer::new();
    p.csi_dispatch(&mut s, &ps(&[&[7], &[25]]), b"?", false, 'l');
    assert!(!s.is_mode_enabled(TerminalModes::AUTO_WRAP()));
    assert!(!s.cursor().visible);
    p.csi_dispatch(&mut s, &ps(&[&[7], &[25], &[1049]]), b"?", false, 'h');
    assert!(s.is_mode_enabled(TerminalModes::AUTO_WRAP()));
    assert!(s.cursor().visible);
    assert!(s.is_alternate_screen());
    p.csi_dispatch(&mut s, &ps(&[&[1049]]), b"?", false, 'l');
    assert!(!s.is_alternate_screen());
    p.csi_dispatch(&mut s, &ps(&[&[25]]), &[], false, 'l');
    assert!(s.cursor().visible);
    p.csi_dispatch(&mut s, &ps(&[&[5]]), &[], false, 'q');
    assert_eq!(s.cursor().shape, CursorShape::Bar);
    p.csi_dispatch(&mut s, &ps(&[&[3]]), &[], false, 'q');
    assert_eq!(s.cursor().shape, CursorShape::Underline);
    p.csi_dispatch(&mut s, &ps(&[&[2]]), b" ", false, 'q');
    assert_eq!(s.cursor().shape, CursorShape::Underline);
}

#[test]
fn test_scroll_region_and_save_restore() {
    let mut s = TerminalState::new(10, 10, 100);
    let mut p = VtePerformer::new();
    p.csi_dispatch(&mut s, &ps(&[&[2], &[5]]), &[], false, 'r');
    let r = s.scroll_region().unwrap();
    assert_eq!((r.top, r.bottom), (1, 4));
    s.set_cursor_pos(3, 3);
    p.csi_dispatch(&mut s, &ps(&[]), &[], false, 's');
    s.set_cursor_pos(7, 7);
    p.csi_dispatch(&mut s, &ps(&[]), &[], false, 'u');
    assert_eq!((s.cursor().x, s.cursor().y), (3, 3));
}

#[test]
fn test_device_status_reports() {
    let mut s = TerminalState::new(10, 10, 100);
    let mut p = VtePerformer::new();
    s.set_cursor_pos(4, 2);
    p.csi_dispatch(&mut s, &ps(&[&[6]]), &[], false, 'n');
    p.csi_dispatch(&mut s, &ps(&[&[5]]), &[], false, 'n');
    p.csi_dispatch(&mut s, &ps(&[&[7]]), &[], false, 'n');
    let ev = p.take_events();
    assert_eq!(ev.len(), 2);
    match &ev[0] {
        TerminalEvent::PtyWrite(b) => assert_eq!(b.as_slice(), b"\x1b[3;5R"),
        other => panic!("unexpected {:?}", other),
    }
    match &ev[1] {
        TerminalEvent::PtyWrite(b) => assert_eq!(b.as_slice(), b"\x1b[0n"),
        other => panic!("unexpected {:?}", other),
    }
}

#[test]
fn test_esc_dispatch() {
    let mut s = TerminalState::new(3, 10, 100);
    let mut p = VtePerformer::new();
    print_str(&mut p, &mut s, "x");
    p.esc_dispatch(&mut s, &[], false, b'D');
    assert_eq!(s.cursor().y, 1);
    p.esc_dispatch(&mut s, &[], false, b'c');
    assert_eq!((s.cursor().x, s.cursor().y), (0, 0));
    assert_eq!(s.screen().get_line_text(0), Some("".to_string()));
}

#[test]
fn test_osc_title_and_shell_integration() {
    let mut s = TerminalState::new(3, 10, 100);
    let mut p = VtePerformer::new();
    p.osc_dispatch(&mut s, &[b"2".to_vec(), b"my title".to_vec()], true);
    assert_eq!(s.title(), "my title");
    p.osc_dispatch(&mut s, &[b"133".to_vec(), b"A".to_vec()], true);
    p.osc_dispatch(&mut s, &[b"633".to_vec(), b"E;ls%20-l".to_vec()], true);
    p.osc_dispatch(&mut s, &[b"531".to_vec(), b"{\"type\":\"shell_started\"}".to_vec()], true);
    p.osc_dispatch(&mut s, &[b"999".to_vec(), b"x".to_vec()], true);
    p.osc_dispatch(&mut s, &[], true);
    let ev = p.take_events();
    assert_eq!(ev.len(), 4);
    assert!(matches!(&ev[0], TerminalEvent::TitleChanged(t) if t == "my title"));
    assert!(matches!(
        &ev[1],
        TerminalEvent::ShellIntegration(ShellIntegrationEvent::RawOscSequence(OscSequence::PromptStart { .. }))
    ));
    assert!(matches!(
        &ev[2],
        TerminalEvent::ShellIntegration(ShellIntegrationEvent::RawOscSequence(OscSequence::CommandText(c))) if c == "ls%20-l"
    ));
    assert!(matches!(
        &ev[3],
        TerminalEvent::ShellIntegration(ShellIntegrationEvent::RawOscSequence(OscSequence::JsonData {
            data_type: JsonDataType::BlockMeta,
            ..
        }))
    ));
}

#[test]
fn test_flush_wakeup() {
    let mut s = TerminalState::new(3, 10, 100);
    let mut p = VtePerformer::new();
    p.flush_wakeup();
    assert!(p.take_events().is_empty());
    p.print(&mut s, 'a');
    p.flush_wakeup();
    let ev = p.take_events();
    assert_eq!(ev.len(), 1);
    assert!(matches!(ev[0], TerminalEvent::Wakeup));
}
