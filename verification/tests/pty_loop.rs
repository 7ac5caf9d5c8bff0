use zterm_terminal::pty::event_loop::{
    monitor_step, read_step, write_step, ChildPoll, MonitorAction, PtyMessage, ReadAction, ReadOutcome, WriteAction,
    WriteEvent,
};
use zterm_terminal::terminal::pty_loop::{State, Writing};
use zterm_terminal::TerminalSize;

#[test]
fn test_writing_new() {
    let w = Writing::new(b"hello".to_vec());
    assert_eq!(w.remaining_bytes(), b"hello");
    assert!(!w.finished());
}

#[test]
fn test_writing_advance() {
    let mut w = Writing::new(b"hello".to_vec());
    w.advance(2);
    assert_eq!(w.remaining_bytes(), b"llo");
    w.advance(3);
    assert!(w.finished());
}

#[test]
fn test_state_write_list() {
    let mut state = State::default();
    state.push_input(b"test".to_vec());
    assert!(state.needs_write());
    state.ensure_next();
    assert!(state.is_writing());
}

#[test]
fn test_state_queue_order() {
    let mut state = State::new();
    assert!(!state.needs_write());
    state.push_input(b"a".to_vec());
    state.push_input(b"bc".to_vec());
    state.ensure_next();
    let w = state.take_current().unwrap();
    assert_eq!(w.remaining_bytes(), b"a");
    assert!(state.needs_write());
    state.goto_next();
    let mut w = state.take_current().unwrap();
    w.advance(1);
    assert_eq!(w.remaining_bytes(), b"c");
    state.set_current(Some(w));
    state.ensure_next();
    assert_eq!(state.take_current().unwrap().remaining_bytes(), b"c");
    state.goto_next();
    assert!(!state.is_writing());
    assert!(!state.needs_write());
}

#[test]
fn test_read_step_decisions() {
    assert_eq!(read_step(ReadOutcome::Data(5)), ReadAction::Emit(5));
    assert_eq!(read_step(ReadOutcome::Eof), ReadAction::Stop);
    assert_eq!(read_step(ReadOutcome::Interrupted), ReadAction::Retry);
    assert_eq!(read_step(ReadOutcome::WouldBlock), ReadAction::WaitMs(10));
    assert_eq!(read_step(ReadOutcome::Failed), ReadAction::Stop);
}

#[test]
fn test_write_step_decisions() {
    assert!(matches!(write_step(WriteEvent::Message(PtyMessage::Input(vec![1, 2]))), WriteAction::Write(v) if v == vec![1, 2]));
    let size = TerminalSize::new(30, 100);
    assert!(matches!(write_step(WriteEvent::Message(PtyMessage::Resize(size))), WriteAction::Resize(s) if s == size));
    assert!(matches!(write_step(WriteEvent::Message(PtyMessage::Shutdown)), WriteAction::Stop));
    assert!(matches!(write_step(WriteEvent::Timeout), WriteAction::Continue));
    assert!(matches!(write_step(WriteEvent::Disconnected), WriteAction::Stop));
}

#[test]
fn test_monitor_step_decisions() {
    assert_eq!(monitor_step(ChildPoll::Exited(3)), MonitorAction::Report(3));
    assert_eq!(monitor_step(ChildPoll::Exited(u32::MAX)), MonitorAction::Report(-1));
    assert_eq!(monitor_step(ChildPoll::Running), MonitorAction::WaitMs(100));
    assert_eq!(monitor_step(ChildPoll::Failed), MonitorAction::Stop);
}
