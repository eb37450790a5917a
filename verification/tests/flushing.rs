use ext2mgr_mount::flush::{GENERIC_READ, GENERIC_WRITE};
use ext2mgr_mount::win32::is_process_elevated;
use ext2mgr_mount::{flush_volume, Call, Progress, Reply};

const NAME: &str = r"\\?\Volume{1}\";
const DEVICE: &str = r"\Device\HarddiskVolume7";

fn open_call(path: &str) -> Call {
    Call::OpenVolume {
        path: path.to_string(),
        access: GENERIC_READ | GENERIC_WRITE,
    }
}

fn calls_of(replies: &[Reply]) -> Vec<Call> {
    let mut made = Vec::new();
    for count in 0..=replies.len() {
        if let Progress::Ask(call) = flush_volume(&['X', 'Y'], NAME, DEVICE, &replies[..count]) {
            made.push(call);
        }
    }
    made
}

#[test]
fn flush_by_the_first_letter() {
    let replies = vec![
        Reply::Opened { handle: 40, code: 0 },
        Reply::Flushed { ok: 1, code: 0 },
        Reply::Closed,
    ];
    assert_eq!(
        calls_of(&replies),
        vec![
            open_call(r"\\.\X:"),
            Call::FlushBuffers { handle: 40 },
            Call::CloseHandle { handle: 40 }
        ]
    );
    assert_eq!(
        flush_volume(&['X', 'Y'], NAME, DEVICE, &replies),
        Progress::Done {
            value: Ok(()),
            used: 3
        }
    );
    assert_eq!(GENERIC_READ | GENERIC_WRITE, 0xC000_0000);
}

#[test]
fn flush_tries_every_path_and_keeps_the_last_error() {
    let replies = vec![
        Reply::Opened { handle: -1, code: 5 },
        Reply::Opened { handle: 41, code: 0 },
        Reply::Flushed { ok: 0, code: 19 },
        Reply::Closed,
        Reply::Opened { handle: -1, code: 2 },
    ];
    assert_eq!(
        calls_of(&replies),
        vec![
            open_call(r"\\.\X:"),
            open_call(r"\\?\Volume{1}"),
            Call::FlushBuffers { handle: 41 },
            Call::CloseHandle { handle: 41 },
            open_call(r"\\?\GLOBALROOT\Device\HarddiskVolume7")
        ]
    );
    assert_eq!(
        flush_volume(&['X', 'Y'], NAME, DEVICE, &replies),
        Progress::Done {
            value: Err(r"Open \\?\GLOBALROOT\Device\HarddiskVolume7 failed (2)".to_string()),
            used: 5
        }
    );
}

#[test]
fn flush_that_fails_names_the_function() {
    let replies = vec![
        Reply::Opened { handle: 41, code: 0 },
        Reply::Flushed { ok: 0, code: 1117 },
        Reply::Closed,
    ];
    assert_eq!(
        flush_volume(&[], NAME, "", &replies),
        Progress::Done {
            value: Err(r"FlushFileBuffers(\\?\Volume{1}) failed (1117)".to_string()),
            used: 3
        }
    );
}

#[test]
fn longest_flush_makes_nine_calls() {
    let mut replies = Vec::new();
    for _ in 0..3 {
        replies.push(Reply::Opened { handle: 7, code: 0 });
        replies.push(Reply::Flushed { ok: 0, code: 1 });
        replies.push(Reply::Closed);
    }
    assert_eq!(calls_of(&replies).len(), 9);
}

#[test]
fn flush_without_a_path_is_refused() {
    assert_eq!(
        flush_volume(&[], r"\\", "", &[]),
        Progress::Done {
            value: Err("No path to flush".to_string()),
            used: 0
        }
    );
}

#[test]
fn elevation_is_read_from_the_token_and_the_token_is_closed() {
    let replies = vec![
        Reply::Token { ok: 1, handle: 9 },
        Reply::Elevation { ok: 1, elevated: 1 },
        Reply::Closed,
    ];
    assert_eq!(
        is_process_elevated(&[]),
        Progress::Ask(Call::OpenProcessToken)
    );
    assert_eq!(
        is_process_elevated(&replies[..1]),
        Progress::Ask(Call::TokenElevation { handle: 9 })
    );
    assert_eq!(
        is_process_elevated(&replies[..2]),
        Progress::Ask(Call::CloseHandle { handle: 9 })
    );
    assert_eq!(
        is_process_elevated(&replies),
        Progress::Done {
            value: true,
            used: 3
        }
    );
}

#[test]
fn process_without_a_readable_token_is_not_elevated() {
    assert_eq!(
        is_process_elevated(&[Reply::Token { ok: 0, handle: 0 }]),
        Progress::Done {
            value: false,
            used: 1
        }
    );
    let unread = [
        Reply::Token { ok: 1, handle: 9 },
        Reply::Elevation { ok: 0, elevated: 1 },
        Reply::Closed,
    ];
    assert_eq!(
        is_process_elevated(&unread),
        Progress::Done {
            value: false,
            used: 3
        }
    );
    let plain = [
        Reply::Token { ok: 1, handle: 9 },
        Reply::Elevation { ok: 1, elevated: 0 },
        Reply::Closed,
    ];
    assert_eq!(
        is_process_elevated(&plain),
        Progress::Done {
            value: false,
            used: 3
        }
    );
}
