//! The decisions of the interactive terminal view.
use vstd::prelude::*;
use crate::text::same_text;

verus! {

/// A key the terminal view reacts to.
#[derive(Clone, Copy, Debug, PartialEq, Eq, Structural)]
pub enum KeyInput {
    Char(char),
    Esc,
    Other,
}

/// Whether the view is to close after a key event: `pressed` tells a key
/// press from a release or repeat, and only a pressed `q` or Esc closes it.
/// Once asked to close, the view stays so.
pub fn exit_after_key(exit_requested: bool, pressed: bool, key: KeyInput) -> (r: bool)
    ensures
        r == (exit_requested || (pressed && (key == KeyInput::Char('q') || key == KeyInput::Esc))),
        exit_requested ==> r,
{
    if !pressed {
        return exit_requested;
    }
    match key {
        KeyInput::Char(c) => exit_requested || c == 'q',
        KeyInput::Esc => true,
        KeyInput::Other => exit_requested,
    }
}

/// Whether a command-line argument asks for the usage text.
pub fn is_help_argument(arg: &str) -> (r: bool)
    ensures
        r == (arg@ == "--help"@ || arg@ == "-h"@ || arg@ == "help"@),
{
    same_text(arg, "--help") || same_text(arg, "-h") || same_text(arg, "help")
}

} // verus!
