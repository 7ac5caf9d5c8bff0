use zterm_terminal::grid::CursorShape;
use zterm_terminal::shell_integration::{CommandState, ZoneManager};
use zterm_terminal::terminal::state::{build_zone_info, next_prompt, previous_prompt, zone_at_line};
use zterm_terminal::terminal::{CursorInfo, Terminal, TerminalSize as ViewSize};
use zterm_terminal::TerminalSize;

fn feed(t: &mut Terminal, text: &str) {
    let (p, s) = t.parts_mut();
    for c in text.chars() {
        if c == '\n' {
            p.execute(s, 0x0d);
            p.execute(s, 0x0a);
        } else {
            p.print(s, c);
        }
    }
}

#[test]
fn test_view_size_default() {
    let s = ViewSize::default();
    assert_eq!((s.cols, s.rows), (80, 24));
}

#[test]
fn test_visible_lines_and_cells() {
    let mut t = Terminal::new(TerminalSize::new(3, 5), 100);
    feed(&mut t, "ab\ncd");
    let lines = t.get_visible_lines();
    assert_eq!(lines, vec!["ab".to_string(), "cd".to_string(), "".to_string()]);
    let cells = t.get_visible_cells();
    assert_eq!(cells.len(), 3);
    assert!(cells.iter().all(|r| r.len() == 5));
    assert_eq!(cells[0][0].text(), "a");
    assert_eq!(cells[2][4].text(), " ");
    assert_eq!(t.cursor_position(), (2, 1));
    assert_eq!(
        t.cursor_info(),
        CursorInfo { x: 2, y: 1, visible: true, shape: CursorShape::Block }
    );
}

#[test]
fn test_scrolling_offsets() {
    let mut t = Terminal::new(TerminalSize::new(2, 5), 100);
    feed(&mut t, "1\n2\n3\n4\n5");
    let (scrollback, total) = t.scrollback_info();
    assert_eq!((scrollback, total), (3, 5));
    assert_eq!(t.max_display_offset(), 3);
    t.scroll_up_by(2);
    assert_eq!(t.display_offset(), 2);
    t.scroll_up_by(10);
    assert_eq!(t.display_offset(), 3);
    let (cells, total, offset) = t.get_viewport_cells();
    assert_eq!((total, offset), (5, 3));
    assert_eq!(cells.len(), 2);
    assert_eq!(cells[0][0].text(), "1");
    t.scroll_down_by(1);
    assert_eq!(t.display_offset(), 2);
    t.scroll_down_by(5);
    assert_eq!(t.display_offset(), 0);
    t.scroll_to_top();
    assert_eq!(t.display_offset(), 3);
    t.scroll_to_bottom();
    assert_eq!(t.display_offset(), 0);
    let (all, sb, rows) = t.get_all_cells();
    assert_eq!((all.len(), sb, rows), (5, 3, 2));
}

#[test]
fn test_resize_view() {
    let mut t = Terminal::new(TerminalSize::new(2, 5), 100);
    t.resize(TerminalSize::new(4, 8));
    assert_eq!(t.size(), TerminalSize::new(4, 8));
    assert_eq!(t.state().rows(), 4);
    assert_eq!(t.state().cols(), 8);
}

#[test]
fn test_zone_info_helpers() {
    let mut zm = ZoneManager::new();
    zm.start_zone(CommandState::PromptStart, 0);
    zm.finish_zone(5, 0);
    zm.start_zone(CommandState::PromptStart, 10);
    zm.transition_state(CommandState::CommandExecuting, 11);
    let infos = build_zone_info(&zm, 0, 8, 0);
    assert_eq!(infos.len(), 1);
    assert_eq!(infos[0].start_line, 0);
    assert_eq!(infos[0].exit_code, Some(0));
    let infos = build_zone_info(&zm, 0, 20, 0);
    assert_eq!(infos.len(), 2);
    assert!(infos[1].is_running);
    assert!(infos[1].end_line.is_none());
    let info = zone_at_line(&zm, 12).unwrap();
    assert_eq!(info.start_line, 10);
    assert!(zone_at_line(&zm, 7).is_none());
    assert_eq!(previous_prompt(&zm, 12), Some(0));
    assert_eq!(next_prompt(&zm, 3), Some(10));
    assert_eq!(next_prompt(&zm, 10), None);
}
