//! What the keyboard says: from input events to the commands of the browser.

use vstd::prelude::*;

verus! {

/// The key of a keyboard event, as far as the browser tells keys apart.
#[derive(Clone, Copy, Debug, PartialEq, Eq, Structural)]
pub enum KeyCode {
    Down,
    Up,
    Left,
    Enter,
    Esc,
    Char(char),
    Other,
}

/// Whether a key went down, is held, or came up.
#[derive(Clone, Copy, Debug, PartialEq, Eq, Structural)]
pub enum KeyKind {
    Press,
    Repeat,
    Release,
}

/// One input event from the terminal.
#[derive(Clone, Copy, Debug, PartialEq, Eq, Structural)]
pub enum Input {
    Key { code: KeyCode, kind: KeyKind },
    /// Anything that is not a keyboard event: a resize, the mouse, focus.
    Other,
}

/// What the user can ask of the browser.
#[derive(Clone, Copy, Debug, PartialEq, Eq, Structural)]
pub enum Command {
    MoveDown,
    MoveUp,
    Confirm,
    Back,
    Filter,
    Quit,
}

/// The command that a key stands for. The arrows move and `j` and `k` move as
/// they do in vi, Enter confirms, `/` starts the fuzzy filter, `q` quits, and
/// Esc, the left arrow and `h` lead back out of a drill-down.
pub open spec fn key_command(code: KeyCode) -> Option<Command> {
    match code {
        KeyCode::Down => Some(Command::MoveDown),
        KeyCode::Up => Some(Command::MoveUp),
        KeyCode::Enter => Some(Command::Confirm),
        KeyCode::Esc => Some(Command::Back),
        KeyCode::Left => Some(Command::Back),
        KeyCode::Char(c) => if c == 'j' {
            Some(Command::MoveDown)
        } else if c == 'k' {
            Some(Command::MoveUp)
        } else if c == 'h' {
            Some(Command::Back)
        } else if c == '/' {
            Some(Command::Filter)
        } else if c == 'q' {
            Some(Command::Quit)
        } else {
            None
        },
        KeyCode::Other => None,
    }
}

/// The command that an input event stands for: that of its key where the
/// event is a key press, and none for any other event.
pub open spec fn input_command(input: Input) -> Option<Command> {
    match input {
        Input::Key { code, kind: KeyKind::Press } => key_command(code),
        _ => None,
    }
}

/// Whether an input event is the press of a key, whichever key it is.
pub open spec fn is_key_press(input: Input) -> bool {
    input matches Input::Key { kind: KeyKind::Press, .. }
}

/// Decodes an input event into the command it stands for.
pub fn command(input: Input) -> (r: Option<Command>)
    ensures
        r == input_command(input),
{
    match input {
        Input::Key { code, kind: KeyKind::Press } => match code {
            KeyCode::Down => Some(Command::MoveDown),
            KeyCode::Up => Some(Command::MoveUp),
            KeyCode::Enter => Some(Command::Confirm),
            KeyCode::Esc | KeyCode::Left => Some(Command::Back),
            KeyCode::Char(c) => match c {
                'j' => Some(Command::MoveDown),
                'k' => Some(Command::MoveUp),
                'h' => Some(Command::Back),
                '/' => Some(Command::Filter),
                'q' => Some(Command::Quit),
                _ => None,
            },
            KeyCode::Other => None,
        },
        _ => None,
    }
}

/// Whether an input event is the press of a key.
pub fn pressed(input: Input) -> (r: bool)
    ensures
        r == is_key_press(input),
{
    match input {
        Input::Key { kind: KeyKind::Press, .. } => true,
        _ => false,
    }
}

} // verus!
