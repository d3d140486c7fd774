use golrs::cell::{Cell, RenderMode};
use golrs::session::{Command, Mode, Session};

#[test]
fn mode_toggle_flips() {
    let mut m = Mode::Run;
    m.toggle();
    assert_eq!(m, Mode::Edit);
    m.toggle();
    assert_eq!(m, Mode::Run);
}

#[test]
fn session_starts_in_edit_mode() {
    let s = Session::new(20, 20);
    assert_eq!(s.mode, Mode::Edit);
    assert!(!s.quit);
    assert_eq!((s.board.rows(), s.board.cols()), (20, 20));
}

#[test]
fn editing_commands_act_only_in_edit_mode() {
    let mut s = Session::new(10, 10);
    s.handle(Command::Right);
    s.handle(Command::Down);
    s.handle(Command::ToggleCell);
    assert_eq!(s.board.cursor(), (1, 1));
    assert_eq!(s.board.cell(1, 1), Cell::Alive);
    s.handle(Command::SwitchMode);
    assert_eq!(s.mode, Mode::Run);
    s.handle(Command::Right);
    s.handle(Command::ToggleCell);
    s.handle(Command::Clear);
    assert_eq!(s.board.cursor(), (1, 1));
    assert_eq!(s.board.cell(1, 1), Cell::Alive);
    s.handle(Command::SwitchMode);
    s.handle(Command::Clear);
    assert_eq!(s.board.cell(1, 1), Cell::Dead);
}

#[test]
fn quit_works_in_both_modes() {
    let mut s = Session::new(10, 10);
    s.handle(Command::Quit);
    assert!(s.quit);
    let mut r = Session::new(10, 10);
    r.handle(Command::SwitchMode);
    r.handle(Command::Quit);
    assert!(r.quit);
}

#[test]
fn ticks_advance_only_while_running() {
    let mut s = Session::new(10, 10);
    for &(r, c) in &[(5, 4), (5, 5), (5, 6)] {
        s.board.toggle(r, c);
    }
    s.tick();
    assert_eq!(s.board.render_mode(), RenderMode::Ascii);
    assert_eq!(s.board.cell(5, 4), Cell::Alive);
    s.handle(Command::SwitchMode);
    s.tick();
    assert_eq!(s.board.render_mode(), RenderMode::Unicode);
    assert_eq!(s.board.cell(5, 4), Cell::Dead);
    assert_eq!(s.board.cell(4, 5), Cell::Alive);
}
