use zterm_terminal::grid::{Cell, PhysRowIndex, Screen, StableRowIndex, VisibleRowIndex};
#[test]
fn test_screen_new() {
    let screen = Screen::new(24, 80, 1000);
    assert_eq!(screen.rows(), 24);
    assert_eq!(screen.cols(), 80);
    assert_eq!(screen.total_lines(), 24);
    assert_eq!(screen.scrollback_lines(), 0);
}

#[test]
fn test_screen_scroll_up() {
    let mut screen = Screen::new(3, 10, 10);
    assert_eq!(screen.total_lines(), 3);

    screen.scroll_up();
    assert_eq!(screen.total_lines(), 4);
    assert_eq!(screen.scrollback_lines(), 1);

    screen.scroll_up();
    assert_eq!(screen.total_lines(), 5);
    assert_eq!(screen.scrollback_lines(), 2);
}

#[test]
fn test_screen_scroll_up_limit() {
    let mut screen = Screen::new(3, 10, 2);

    // 添加 2 行 scrollback
    screen.scroll_up();
    screen.scroll_up();
    assert_eq!(screen.scrollback_lines(), 2);

    // 第 3 行应该移除最旧的
    screen.scroll_up();
    assert_eq!(screen.scrollback_lines(), 2);
    assert_eq!(screen.scrollback_offset(), 1);
}

#[test]
fn test_stable_to_phys() {
    let mut screen = Screen::new(3, 10, 10);

    let stable0 = StableRowIndex::new(0);
    let phys0 = screen.stable_to_phys(stable0).unwrap();
    assert_eq!(phys0.get(), 0);

    // 滚动后
    screen.scroll_up();
    let stable0_after = StableRowIndex::new(0);
    let phys0_after = screen.stable_to_phys(stable0_after).unwrap();
    assert_eq!(phys0_after.get(), 0); // 现在在 scrollback 中

    let stable1 = StableRowIndex::new(1);
    let phys1 = screen.stable_to_phys(stable1).unwrap();
    assert_eq!(phys1.get(), 1);
}

#[test]
fn test_phys_to_stable() {
    let mut screen = Screen::new(3, 10, 10);

    let phys0 = PhysRowIndex::new(0);
    let stable0 = screen.phys_to_stable(phys0);
    assert_eq!(stable0.get(), 0);

    screen.scroll_up();
    let phys0_after = PhysRowIndex::new(0);
    let stable0_after = screen.phys_to_stable(phys0_after);
    assert_eq!(stable0_after.get(), 0); // scrollback 中的第一行
}

#[test]
fn test_visible_to_phys() {
    let mut screen = Screen::new(3, 10, 10);

    let vis0 = VisibleRowIndex::new(0);
    let phys0 = screen.visible_to_phys(vis0).unwrap();
    assert_eq!(phys0.get(), 0);

    // 添加 scrollback
    screen.scroll_up();
    screen.scroll_up();

    let vis0_after = VisibleRowIndex::new(0);
    let phys0_after = screen.visible_to_phys(vis0_after).unwrap();
    assert_eq!(phys0_after.get(), 2); // 跳过 2 行 scrollback

    // 访问 scrollback
    let vis_neg1 = VisibleRowIndex::new(-1);
    let phys_neg1 = screen.visible_to_phys(vis_neg1).unwrap();
    assert_eq!(phys_neg1.get(), 1); // scrollback 的最后一行
}

#[test]
fn test_phys_to_visible() {
    let mut screen = Screen::new(3, 10, 10);
    screen.scroll_up();
    screen.scroll_up();

    let phys0 = PhysRowIndex::new(0);
    let vis0 = screen.phys_to_visible(phys0);
    assert_eq!(vis0.get(), -2); // scrollback 中

    let phys2 = PhysRowIndex::new(2);
    let vis2 = screen.phys_to_visible(phys2);
    assert_eq!(vis2.get(), 0); // 视口第一行
}

#[test]
fn test_get_line() {
    let screen = Screen::new(3, 10, 10);

    let phys0 = PhysRowIndex::new(0);
    assert!(screen.get_line(phys0).is_some());

    let phys100 = PhysRowIndex::new(100);
    assert!(screen.get_line(phys100).is_none());
}

#[test]
fn test_insert_line() {
    let mut screen = Screen::new(3, 10, 10);
    let initial_count = screen.total_lines();

    screen.insert_line(PhysRowIndex::new(1));
    assert_eq!(screen.total_lines(), initial_count + 1);
}

#[test]
fn test_delete_line() {
    let mut screen = Screen::new(3, 10, 10);

    let deleted = screen.delete_line(PhysRowIndex::new(1));
    assert!(deleted.is_some());
    assert_eq!(screen.total_lines(), 2);
}

#[test]
fn screen_test_resize() {
    let mut screen = Screen::new(24, 80, 1000);

    screen.resize(30, 100);
    assert_eq!(screen.rows(), 30);
    assert_eq!(screen.cols(), 100);
    assert_eq!(screen.total_lines(), 30);
}

#[test]
fn test_clear() {
    let mut screen = Screen::new(3, 10, 10);
    screen.scroll_up();
    screen.scroll_up();

    screen.clear();
    assert_eq!(screen.total_lines(), 3);
    assert_eq!(screen.scrollback_lines(), 0);
    assert_eq!(screen.scrollback_offset(), 0);
}

#[test]
fn test_clear_scrollback() {
    let mut screen = Screen::new(3, 10, 10);
    screen.scroll_up();
    screen.scroll_up();

    let scrollback = screen.scrollback_lines();
    screen.clear_scrollback();
    assert_eq!(screen.scrollback_lines(), 0);
    assert_eq!(screen.scrollback_offset(), scrollback);
}

#[test]
fn test_iter_visible() {
    let screen = Screen::new(3, 10, 10);
    let mut count = 0;

    for (vis_idx, _line) in screen.iter_visible() {
        assert!(vis_idx.is_visible(screen.rows()));
        count += 1;
    }

    assert_eq!(count, 3);
}

#[test]
fn test_effective_scrollback_lines_all_empty() {
    // 所有行都是空的，有效 scrollback 应该是 0
    let mut screen = Screen::new(3, 10, 10);
    screen.scroll_up();
    screen.scroll_up();

    assert_eq!(screen.scrollback_lines(), 2);
    assert_eq!(screen.effective_scrollback_lines(), 0);
}

#[test]
fn test_effective_scrollback_lines_with_content() {

    let mut screen = Screen::new(3, 10, 10);

    // 在第一行写入内容（使用 push 因为 set_cell 需要先 resize）
    if let Some(line) = screen.get_line_mut(PhysRowIndex::new(0)) {
        line.push(Cell::new("H"));
    }

    // 验证第一行不为空
    assert!(!screen.get_line(PhysRowIndex::new(0)).unwrap().is_empty());

    // 滚动，使第一行进入 scrollback
    screen.scroll_up();
    screen.scroll_up();

    assert_eq!(screen.scrollback_lines(), 2);
    // 第一行有内容，所以有效 scrollback 是 2
    assert_eq!(screen.effective_scrollback_lines(), 2);
}

#[test]
fn test_effective_scrollback_lines_partial_content() {

    let mut screen = Screen::new(3, 10, 10);

    // 滚动两次，创建 2 行空的 scrollback（原来的第 0、1 行变成 scrollback）
    screen.scroll_up();
    screen.scroll_up();

    // 在物理索引 1 写入内容（这是原来的第 1 行，现在在 scrollback 中）
    if let Some(line) = screen.get_line_mut(PhysRowIndex::new(1)) {
        line.push(Cell::new("X"));
    }

    assert_eq!(screen.scrollback_lines(), 2);
    // 第 0 行是空的，第 1 行有内容
    // 有效 scrollback = scrollback_lines - first_non_empty = 2 - 1 = 1
    assert_eq!(screen.effective_scrollback_lines(), 1);
}

fn write_row(screen: &mut Screen, phys: usize, text: &str) {
    let line = screen.get_line_mut(PhysRowIndex::new(phys)).unwrap();
    for ch in text.chars() {
        line.push(Cell::from_char(ch));
    }
}

fn row_text(screen: &Screen, row: usize) -> String {
    screen.get_line_text(row).unwrap()
}

#[test]
fn screen_scroll_up_within_region_moves_lines() {
    let mut screen = Screen::new(5, 10, 10);
    for (i, t) in ["a", "b", "c", "d", "e"].iter().enumerate() {
        write_row(&mut screen, i, t);
    }
    screen.scroll_up_within_margins(1, 4, 1);
    assert_eq!(row_text(&screen, 0), "a");
    assert_eq!(row_text(&screen, 1), "c");
    assert_eq!(row_text(&screen, 2), "d");
    assert_eq!(row_text(&screen, 3), "");
    assert_eq!(row_text(&screen, 4), "e");
    assert_eq!(screen.scrollback_lines(), 0);
}

#[test]
fn screen_scroll_up_within_top_region_shifts_every_row() {
    let mut screen = Screen::new(4, 10, 10);
    for (i, t) in ["a", "b", "c", "d"].iter().enumerate() {
        write_row(&mut screen, i, t);
    }
    screen.scroll_up_within_margins(0, 3, 1);
    assert_eq!(row_text(&screen, 0), "b");
    assert_eq!(row_text(&screen, 1), "c");
    assert_eq!(row_text(&screen, 2), "");
    assert_eq!(row_text(&screen, 3), "d");
    assert_eq!(screen.scrollback_lines(), 0);
}

#[test]
fn screen_scroll_up_within_region_by_two() {
    let mut screen = Screen::new(6, 10, 10);
    for (i, t) in ["a", "b", "c", "d", "e", "f"].iter().enumerate() {
        write_row(&mut screen, i, t);
    }
    screen.scroll_up_within_margins(1, 5, 2);
    assert_eq!(row_text(&screen, 0), "a");
    assert_eq!(row_text(&screen, 1), "d");
    assert_eq!(row_text(&screen, 2), "e");
    assert_eq!(row_text(&screen, 3), "");
    assert_eq!(row_text(&screen, 4), "");
    assert_eq!(row_text(&screen, 5), "f");
}

#[test]
fn screen_scroll_up_within_full_viewport_uses_scrollback() {
    let mut screen = Screen::new(3, 10, 10);
    write_row(&mut screen, 0, "top");
    screen.scroll_up_within_margins(0, 3, 2);
    assert_eq!(screen.scrollback_lines(), 2);
    assert_eq!(screen.total_lines(), 5);
}

#[test]
fn screen_scroll_down_within_region_moves_lines() {
    let mut screen = Screen::new(5, 10, 10);
    for (i, t) in ["a", "b", "c", "d", "e"].iter().enumerate() {
        write_row(&mut screen, i, t);
    }
    screen.scroll_down_within_margins(1, 4, 1);
    assert_eq!(row_text(&screen, 0), "a");
    assert_eq!(row_text(&screen, 1), "");
    assert_eq!(row_text(&screen, 2), "b");
    assert_eq!(row_text(&screen, 3), "c");
    assert_eq!(row_text(&screen, 4), "e");
}

#[test]
fn screen_region_scroll_ignores_empty_requests() {
    let mut screen = Screen::new(3, 10, 10);
    write_row(&mut screen, 1, "x");
    screen.scroll_up_within_margins(2, 2, 1);
    screen.scroll_down_within_margins(0, 3, 0);
    assert_eq!(row_text(&screen, 1), "x");
}

#[test]
fn screen_get_line_text_trims_trailing_space() {
    let mut screen = Screen::new(2, 10, 10);
    write_row(&mut screen, 0, "ab  ");
    assert_eq!(row_text(&screen, 0), "ab");
    assert!(screen.get_line_text(2).is_none());
}

#[test]
fn screen_scroll_down_restores_offset() {
    let mut screen = Screen::new(2, 10, 1);
    screen.scroll_up();
    screen.scroll_up();
    assert_eq!(screen.scrollback_offset(), 1);
    screen.scroll_down();
    assert_eq!(screen.scrollback_offset(), 0);
    assert_eq!(screen.total_lines(), 3);
    screen.scroll_down();
    assert_eq!(screen.scrollback_offset(), 0);
}

#[test]
fn screen_stable_rows_follow_lines() {
    let mut screen = Screen::new(2, 10, 1);
    write_row(&mut screen, 1, "keep");
    let stable = screen.phys_to_stable(PhysRowIndex::new(1));
    screen.scroll_up();
    screen.scroll_up();
    let phys = screen.stable_to_phys(stable).unwrap();
    assert_eq!(phys.get(), 0);
    assert_eq!(screen.get_line(phys).unwrap().text(), "keep");
    assert!(screen.stable_to_phys(StableRowIndex::new(0)).is_none());
}

#[test]
fn screen_visible_round_trip() {
    let mut screen = Screen::new(3, 10, 10);
    screen.scroll_up();
    for p in 0..screen.total_lines() {
        let vis = screen.phys_to_visible(PhysRowIndex::new(p));
        assert_eq!(screen.visible_to_phys(vis).unwrap().get(), p);
    }
    assert!(screen.visible_to_phys(VisibleRowIndex::new(3)).is_none());
    assert!(screen.visible_to_phys(VisibleRowIndex::new(-2)).is_none());
}

#[test]
fn screen_insert_line_caps_total() {
    let mut screen = Screen::new(2, 10, 0);
    screen.insert_line(PhysRowIndex::new(0));
    assert_eq!(screen.total_lines(), 2);
    screen.insert_line(PhysRowIndex::new(5));
    assert_eq!(screen.total_lines(), 2);
}

#[test]
fn screen_resize_shrink_and_pad() {
    let mut screen = Screen::new(4, 3, 10);
    write_row(&mut screen, 0, "ab");
    screen.resize(2, 5);
    assert_eq!(screen.total_lines(), 2);
    assert_eq!(screen.get_line(PhysRowIndex::new(0)).unwrap().len(), 5);
    assert_eq!(screen.get_line(PhysRowIndex::new(0)).unwrap().text(), "ab   ");
}

#[test]
fn screen_visible_lines_and_iter_phys() {
    let mut screen = Screen::new(2, 10, 10);
    screen.scroll_up();
    assert_eq!(screen.visible_lines().len(), 2);
    let all = screen.iter_phys();
    assert_eq!(all.len(), 3);
    assert_eq!(all[2].0.get(), 2);
}

#[test]
fn screen_clear_scrollback_keeps_stable_rows() {
    let mut screen = Screen::new(2, 10, 10);
    screen.scroll_up();
    write_row(&mut screen, 1, "v");
    let stable = screen.phys_to_stable(PhysRowIndex::new(1));
    screen.clear_scrollback();
    let phys = screen.stable_to_phys(stable).unwrap();
    assert_eq!(screen.get_line(phys).unwrap().text(), "v");
}
