use osc52::codec::Selection;
use osc52::codec::decode_paste;
use osc52::codec::encode_copy;
use osc52::codec::encode_paste_request;
use osc52::command::ClipboardCommands;
use osc52::command::ClipboardGetArgs;
use osc52::command::ClipboardSetArgs;
use osc52::command::TerminalRequest;
use osc52::command::execute;

fn copy_frame_of(request: TerminalRequest) -> Vec<u8> {
    match request {
        TerminalRequest::WriteOnly { frame } => frame,
        TerminalRequest::WriteThenRead { .. } => panic!("a set command must not await a reply"),
    }
}

fn paste_frame_of(request: TerminalRequest) -> Vec<u8> {
    match request {
        TerminalRequest::WriteThenRead { frame } => frame,
        TerminalRequest::WriteOnly { .. } => panic!("a get command must await the reply"),
    }
}

#[test]
fn set_with_argument_builds_copy_frame() {
    let command = ClipboardCommands::SetClipboard(ClipboardSetArgs {
        content: Some(b"hello".to_vec()),
        primary: false,
    });
    let frame = copy_frame_of(execute(command, Vec::new()));
    assert_eq!(frame, b"\x1b]52;c;aGVsbG8=\x07".to_vec());
}

#[test]
fn set_argument_takes_precedence_over_stdin() {
    let command = ClipboardCommands::SetClipboard(ClipboardSetArgs {
        content: Some(b"argument".to_vec()),
        primary: false,
    });
    let frame = copy_frame_of(execute(command, b"stdin".to_vec()));
    assert_eq!(frame, encode_copy(b"argument", Selection::Clipboard));
}

#[test]
fn set_without_argument_copies_stdin() {
    let command = ClipboardCommands::SetClipboard(ClipboardSetArgs {
        content: None,
        primary: false,
    });
    let frame = copy_frame_of(execute(command, b"from stdin\n".to_vec()));
    assert_eq!(frame, encode_copy(b"from stdin\n", Selection::Clipboard));
}

#[test]
fn set_primary_uses_primary_selector() {
    let command = ClipboardCommands::SetClipboard(ClipboardSetArgs {
        content: Some(b"x".to_vec()),
        primary: true,
    });
    let frame = copy_frame_of(execute(command, Vec::new()));
    assert_eq!(frame, encode_copy(b"x", Selection::Primary));
}

#[test]
fn set_frame_decodes_back_to_content() {
    let content = vec![0u8, 7, 59, 255, 27];
    let command = ClipboardCommands::SetClipboard(ClipboardSetArgs {
        content: Some(content.clone()),
        primary: false,
    });
    let frame = copy_frame_of(execute(command, Vec::new()));
    assert_eq!(decode_paste(&frame), Ok(content));
}

#[test]
fn get_builds_paste_request() {
    let command = ClipboardCommands::GetClipboard(ClipboardGetArgs { primary: false });
    let frame = paste_frame_of(execute(command, Vec::new()));
    assert_eq!(frame, encode_paste_request(Selection::Clipboard));
    assert_eq!(frame, b"\x1b]52;c;?\x07".to_vec());
}

#[test]
fn get_primary_builds_primary_paste_request() {
    let command = ClipboardCommands::GetClipboard(ClipboardGetArgs { primary: true });
    let frame = paste_frame_of(execute(command, Vec::new()));
    assert_eq!(frame, encode_paste_request(Selection::Primary));
}
