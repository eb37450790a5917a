//! Writing out what is buffered for a volume.

use vstd::prelude::*;

use crate::protocol::{closed_at, flushed_at, opened_at, Call, CallView, Reply};
use crate::script::{bind, lemma_outcome_bind_any, outcome, Progress, Script};
use crate::text::{
    decimal, decimal_text, texts_of, trim_end_matches, trim_start_matches, trimmed_end,
    trimmed_start,
};

verus! {

pub const GENERIC_READ: u32 = 0x8000_0000;

pub const GENERIC_WRITE: u32 = 0x4000_0000;

/// The handle that stands for a failure to open.
pub const INVALID_HANDLE: isize = -1;

/// The path by way of a drive letter: the first one.
pub open spec fn letter_paths(letters: Seq<char>) -> Seq<Seq<char>> {
    if letters.len() > 0 {
        seq![r"\\.\"@.push(letters[0]).push(':')]
    } else {
        Seq::empty()
    }
}

/// The path by way of the volume name, without backslashes at its end.
pub open spec fn name_paths(win32_volume_name: Seq<char>) -> Seq<Seq<char>> {
    let trimmed = trimmed_end(win32_volume_name, '\\');
    if trimmed.len() > 0 {
        seq![trimmed]
    } else {
        Seq::empty()
    }
}

/// The path by way of the device object.
pub open spec fn object_paths(physical_object: Seq<char>) -> Seq<Seq<char>> {
    if physical_object.len() > 0 {
        seq![r"\\?\GLOBALROOT\"@ + trimmed_start(physical_object, '\\')]
    } else {
        Seq::empty()
    }
}

/// The paths to a volume, in the order in which they are tried.
pub open spec fn flush_paths(
    letters: Seq<char>,
    win32_volume_name: Seq<char>,
    physical_object: Seq<char>,
) -> Seq<Seq<char>> {
    letter_paths(letters) + name_paths(win32_volume_name) + object_paths(physical_object)
}

/// What is said of a path that cannot be opened.
pub open spec fn not_opened_text(path: Seq<char>, code: u32) -> Seq<char> {
    ("Open "@ + path + " failed ("@ + decimal(code as nat)).push(')')
}

/// What is said of a path that cannot be flushed.
pub open spec fn not_flushed_text(path: Seq<char>, code: u32) -> Seq<char> {
    ("FlushFileBuffers("@ + path + ") failed ("@ + decimal(code as nat)).push(')')
}

/// Flushing by one path. A handle that was opened is closed, whatever became of the flush.
pub open spec fn attempt_script(path: Seq<char>) -> Script<Result<(), Seq<char>>> {
    Script::Ask(
        CallView::OpenVolume { path, access: GENERIC_READ | GENERIC_WRITE },
        |opened: Reply|
            if opened->Opened_handle == INVALID_HANDLE {
                Script::Done(Err(not_opened_text(path, opened->Opened_code)))
            } else {
                Script::Ask(
                    CallView::FlushBuffers { handle: opened->Opened_handle },
                    |flushed: Reply|
                        Script::Ask(
                            CallView::CloseHandle { handle: opened->Opened_handle },
                            |_closed: Reply|
                                if flushed->Flushed_ok != 0 {
                                    Script::Done(Ok(()))
                                } else {
                                    Script::Done(Err(not_flushed_text(path, flushed->Flushed_code)))
                                },
                        ),
                )
            },
    )
}

/// What follows an attempt: the end where it has succeeded, else the paths from position `from` on.
pub open spec fn onward_script(
    paths: Seq<Seq<char>>,
    from: nat,
    attempted: Result<(), Seq<char>>,
) -> Script<Result<(), Seq<char>>>
    decreases paths.len() - from,
{
    if attempted is Ok || from >= paths.len() {
        Script::Done(attempted)
    } else {
        bind(
            attempt_script(paths[from as int]),
            |next: Result<(), Seq<char>>| onward_script(paths, from + 1, next),
        )
    }
}

/// Flushing by the first path by which it succeeds.
pub open spec fn flush_volume_script(
    letters: Seq<char>,
    win32_volume_name: Seq<char>,
    physical_object: Seq<char>,
) -> Script<Result<(), Seq<char>>> {
    let paths = flush_paths(letters, win32_volume_name, physical_object);
    if paths.len() == 0 {
        Script::Done(Err("No path to flush"@))
    } else {
        onward_script(paths, 0, Err("Flush failed"@))
    }
}

fn paths_to_flush(letters: &[char], win32_volume_name: &str, physical_object: &str) -> (paths: Vec<
    String,
>)
    ensures
        texts_of(paths@) == flush_paths(letters@, win32_volume_name@, physical_object@),
{
    let mut paths: Vec<String> = Vec::new();
    if letters.len() > 0 {
        let mut path = r"\\.\".to_owned();
        path.push(letters[0]);
        path.push(':');
        paths.push(path);
    }
    assert(texts_of(paths@) == letter_paths(letters@));
    let trimmed = trim_end_matches(win32_volume_name, '\\');
    if !trimmed.as_str().is_empty() {
        paths.push(trimmed);
    }
    assert(texts_of(paths@) == letter_paths(letters@) + name_paths(win32_volume_name@));
    if !physical_object.is_empty() {
        let mut path = r"\\?\GLOBALROOT\".to_owned();
        path.append(trim_start_matches(physical_object, '\\').as_str());
        paths.push(path);
    }
    assert(texts_of(paths@) == flush_paths(letters@, win32_volume_name@, physical_object@));
    paths
}

fn attempt(path: &str, replies: &[Reply], at: usize) -> (progress: Progress<Result<(), String>>)
    ensures
        progress.outcome() == outcome(attempt_script(path@), replies@, at as nat),
{
    reveal_with_fuel(outcome, 4);
    let (handle, code) = match opened_at(replies, at) {
        None => return Progress::Ask(
            Call::OpenVolume { path: path.to_owned(), access: GENERIC_READ | GENERIC_WRITE },
        ),
        Some(opened) => opened,
    };
    if handle == INVALID_HANDLE {
        let mut reason = "Open ".to_owned();
        reason.append(path);
        reason.append(" failed (");
        reason.append(decimal_text(code as u64).as_str());
        reason.push(')');
        return Progress::Done { value: Err(reason), used: at + 1 };
    }
    let (ok, code) = match flushed_at(replies, at + 1) {
        None => return Progress::Ask(Call::FlushBuffers { handle }),
        Some(flushed) => flushed,
    };
    if !closed_at(replies, at + 2) {
        return Progress::Ask(Call::CloseHandle { handle });
    }
    if ok != 0 {
        return Progress::Done { value: Ok(()), used: at + 3 };
    }
    let mut reason = "FlushFileBuffers(".to_owned();
    reason.append(path);
    reason.append(") failed (");
    reason.append(decimal_text(code as u64).as_str());
    reason.push(')');
    Progress::Done { value: Err(reason), used: at + 3 }
}

/// Writes out what is buffered for the volume, given the replies to the calls so far. The volume is
/// opened by its first letter, else by its name, else by its device object, and the first path by
/// which the flush succeeds ends the operation.
pub fn flush_volume(
    letters: &[char],
    win32_volume_name: &str,
    physical_object: &str,
    replies: &[Reply],
) -> (progress: Progress<Result<(), String>>)
    ensures
        progress.outcome() == outcome(
            flush_volume_script(letters@, win32_volume_name@, physical_object@),
            replies@,
            0,
        ),
{
    let paths = paths_to_flush(letters, win32_volume_name, physical_object);
    let ghost texts = texts_of(paths@);
    if paths.len() == 0 {
        return Progress::Done { value: Err("No path to flush".to_owned()), used: 0 };
    }
    let mut last_error = "Flush failed".to_owned();
    let mut from: usize = 0;
    let mut here: usize = 0;
    while from < paths.len()
        invariant
            from <= paths@.len(),
            texts == texts_of(paths@),
            outcome(onward_script(texts, from as nat, Err(last_error@)), replies@, here as nat)
                == outcome(
                flush_volume_script(letters@, win32_volume_name@, physical_object@),
                replies@,
                0,
            ),
        decreases paths@.len() - from,
    {
        proof {
            lemma_outcome_bind_any::<Result<(), Seq<char>>, Result<(), Seq<char>>>(
                attempt_script(texts[from as int]),
                replies@,
                here as nat,
            );
        }
        match attempt(paths[from].as_str(), replies, here) {
            Progress::Ask(call) => return Progress::Ask(call),
            Progress::Done { value: Ok(_), used } => {
                let ghost done = Ok::<(), Seq<char>>(());
                assert(onward_script(texts, (from + 1) as nat, done) == Script::Done(done));
                return Progress::Done { value: Ok(()), used };
            },
            Progress::Done { value: Err(reason), used } => {
                last_error = reason;
                here = used;
            },
        }
        from = from + 1;
    }
    Progress::Done { value: Err(last_error), used: here }
}

} // verus!
