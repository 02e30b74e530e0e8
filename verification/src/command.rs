//! The command front end: the parsed clipboard commands and the terminal
//! exchange each one asks for. `set` resolves its content — the command-line
//! argument where one was given, the standard-input bytes otherwise — and
//! builds a copy frame to be written fire-and-forget; `get` builds a
//! paste-request frame whose asynchronous reply is then collected and
//! decoded.

use vstd::prelude::*;

use crate::codec::Selection;
use crate::codec::copy_frame;
use crate::codec::encode_copy;
use crate::codec::encode_paste_request;
use crate::codec::paste_request_frame;
use crate::codec::selection_of;

verus! {

/// Arguments of the `set` command.
pub struct ClipboardSetArgs {
    /// The content to copy to the clipboard, where it was given on the
    /// command line. Where it is absent, the standard-input bytes are
    /// copied instead.
    pub content: Option<Vec<u8>>,
    /// Use the "primary" clipboard.
    pub primary: bool,
}

/// Arguments of the `get` command.
pub struct ClipboardGetArgs {
    /// Use the "primary" clipboard.
    pub primary: bool,
}

/// The clipboard commands.
pub enum ClipboardCommands {
    SetClipboard(ClipboardSetArgs),
    GetClipboard(ClipboardGetArgs),
}

/// The terminal exchange a command asks for.
pub enum TerminalRequest {
    /// Write the frame to the terminal device; no reply is awaited.
    WriteOnly { frame: Vec<u8> },
    /// Write the frame, then collect and decode the asynchronous reply.
    WriteThenRead { frame: Vec<u8> },
}

/// The content a `set` command copies: the command-line argument takes
/// precedence over the standard-input bytes.
pub open spec fn chosen_content(argument: Option<Vec<u8>>, stdin_content: Seq<u8>) -> Seq<u8> {
    match argument {
        Some(content) => content@,
        None => stdin_content,
    }
}

/// Turns a parsed command into the terminal exchange that performs it:
/// `set` yields a fire-and-forget copy frame wrapping its resolved content,
/// `get` yields a paste-request frame whose reply is to be read back.
pub fn execute(command: ClipboardCommands, stdin_content: Vec<u8>) -> (request: TerminalRequest)
    ensures
        (command matches ClipboardCommands::SetClipboard(args) ==> (request
            matches TerminalRequest::WriteOnly { frame } && frame@ == copy_frame(
            chosen_content(args.content, stdin_content@),
            selection_of(args.primary),
        ))),
        (command matches ClipboardCommands::GetClipboard(args) ==> (request
            matches TerminalRequest::WriteThenRead { frame } && frame@ == paste_request_frame(
            selection_of(args.primary),
        ))),
{
    match command {
        ClipboardCommands::SetClipboard(args) => {
            let content = match args.content {
                Some(given) => given,
                None => stdin_content,
            };
            let frame = encode_copy(content.as_slice(), Selection::from_primary(args.primary));
            TerminalRequest::WriteOnly { frame }
        },
        ClipboardCommands::GetClipboard(args) => {
            let frame = encode_paste_request(Selection::from_primary(args.primary));
            TerminalRequest::WriteThenRead { frame }
        },
    }
}

} // verus!
