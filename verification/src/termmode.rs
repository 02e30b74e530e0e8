//! The terminal mode scope: a wrapped operation runs with the controlling
//! terminal switched into no-echo/cbreak mode, so that the emulator's paste
//! response is not echoed to the screen, and the prior line discipline is
//! restored on every exit path. The switching itself is done by the
//! `ncurses` crate.

use vstd::prelude::*;

verus! {

/// Relies on `ncurses::initscr`: enters curses mode, so that the option
/// calls below act on the controlling terminal's line discipline.
#[verifier::external_body]
fn enter_curses_mode() {
    ncurses::initscr();
}

/// Relies on `ncurses::noecho`: stops input bytes from being echoed to the
/// screen.
#[verifier::external_body]
fn disable_echo() {
    ncurses::noecho();
}

/// Relies on `ncurses::cbreak`: disables line buffering, handing input to
/// the process character by character.
#[verifier::external_body]
fn enable_cbreak() {
    ncurses::cbreak();
}

/// Relies on `ncurses::nocbreak`: restores line buffering.
#[verifier::external_body]
fn disable_cbreak() {
    ncurses::nocbreak();
}

/// Relies on `ncurses::echo`: restores the echoing of input to the screen.
#[verifier::external_body]
fn enable_echo() {
    ncurses::echo();
}

/// Relies on `ncurses::endwin`: leaves curses mode, putting the terminal
/// back into its prior state.
#[verifier::external_body]
fn leave_curses_mode() {
    ncurses::endwin();
}

/// Runs `operation` with the terminal switched into no-echo/cbreak mode.
/// The prior echo and line-buffering discipline is restored before the
/// outcome propagates, on the success path and on the failure path alike:
/// the single exit below passes through the restoring calls whatever
/// `operation` returned.
pub fn with_noecho_cbreak_mode<E, F: FnOnce() -> Result<Vec<u8>, E>>(operation: F) -> (outcome:
    Result<Vec<u8>, E>)
    requires
        call_requires(operation, ()),
    ensures
        call_ensures(operation, (), outcome),
{
    enter_curses_mode();
    disable_echo();
    enable_cbreak();
    let outcome = operation();
    disable_cbreak();
    enable_echo();
    leave_curses_mode();
    outcome
}

} // verus!
