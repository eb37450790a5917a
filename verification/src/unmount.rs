//! Taking a drive letter away.

use vstd::prelude::*;

use crate::mount::{drive_root, drive_root_text};
use crate::protocol::{
    drive_at, flag_at, service_at, status_at, target_at, Call, CallView, DriveQuery, Reply,
};
use crate::script::{bind, lemma_outcome_bind, outcome, Progress, Script};

verus! {

/// What is said of a letter that is still there.
pub open spec fn not_removed_text(letter: char) -> Seq<char> {
    "Failed to remove drive letter "@.push(letter).push(':')
}

/// The target of a letter; empty where the letter is not bound.
pub open spec fn target_or_empty(target: Option<String>) -> Seq<char> {
    match target {
        Some(path) => path@,
        None => Seq::empty(),
    }
}

/// Undoing the binding to the target from this process; tells whether the letter is then free.
pub open spec fn remove_checked_script(letter: char, symlink: Seq<char>) -> Script<bool> {
    if symlink.len() == 0 {
        Script::Done(false)
    } else {
        Script::Ask(
            CallView::RemoveLocal { letter, target: symlink },
            |removed: Reply|
                if removed->Flag_0 {
                    Script::Ask(
                        CallView::QueryDosDevice { letter },
                        |left: Reply| Script::Done(left->Target_0 is None),
                    )
                } else {
                    Script::Done(false)
                },
        )
    }
}

/// Undoing the binding from this process where it is elevated, with the target of the letter in
/// place of a hint that is missing; tells whether the letter is then free.
pub open spec fn remove_local_script(letter: char, hint: Seq<char>) -> Script<bool> {
    Script::Ask(
        CallView::IsProcessElevated,
        |elevated: Reply|
            if !elevated->Flag_0 {
                Script::Done(false)
            } else if hint.len() > 0 {
                remove_checked_script(letter, hint)
            } else {
                Script::Ask(
                    CallView::QueryDosDevice { letter },
                    |bound: Reply| remove_checked_script(letter, target_or_empty(bound->Target_0)),
                )
            },
    )
}

/// Having the drive service undo the binding to the target. Where it does not, the letter may
/// still be free.
pub open spec fn service_remove_script(letter: char, symlink: Seq<char>) -> Script<
    Result<(), Seq<char>>,
> {
    if symlink.len() == 0 {
        Script::Done(Err(not_removed_text(letter)))
    } else {
        Script::Ask(
            CallView::ServiceRemove { drive: letter as u8, target: symlink },
            |removed: Reply|
                match removed->Service_0 {
                    Err(err) => Script::Done(
                        Err(not_removed_text(letter).push('\n') + err@),
                    ),
                    Ok(true) => Script::Done(Ok(())),
                    Ok(false) => Script::Ask(
                        CallView::QueryDosDevice { letter },
                        |left: Reply|
                            if left->Target_0 is None {
                                Script::Done(Ok(()))
                            } else {
                                Script::Done(Err(not_removed_text(letter)))
                            },
                    ),
                },
        )
    }
}

/// Whether the drive service knows the target of the letter.
pub open spec fn names_target(query: Option<DriveQuery>) -> bool {
    query matches Some(found) && found.result && found.symlink@.len() > 0
}

/// Undoing the binding by way of the drive service: with the target that the service knows, else
/// with the hint, else with the target that the letter is bound to.
pub open spec fn remove_by_service_script(letter: char, hint: Seq<char>) -> Script<
    Result<(), Seq<char>>,
> {
    Script::Ask(
        CallView::ServiceQuery { drive: letter as u8 },
        |known: Reply|
            match known->Drive_0 {
                Err(err) => Script::Done(
                    Err(not_removed_text(letter) + "\nExt2Srv pipe: "@ + err@),
                ),
                Ok(query) => if names_target(query) {
                    service_remove_script(letter, query->0.symlink@)
                } else if hint.len() > 0 {
                    service_remove_script(letter, hint)
                } else {
                    Script::Ask(
                        CallView::QueryDosDevice { letter },
                        |bound: Reply|
                            service_remove_script(letter, target_or_empty(bound->Target_0)),
                    )
                },
            },
    )
}

/// The rest of an unmount once this process has tried.
pub open spec fn after_local_script(letter: char, hint: Seq<char>, free: bool) -> Script<
    Result<(), Seq<char>>,
> {
    if free {
        Script::Done(Ok(()))
    } else {
        remove_by_service_script(letter, hint)
    }
}

/// Taking a letter away: from the registry, from the Mount Manager and from the DOS devices.
pub open spec fn unmount_letter_script(letter: char, hint: Seq<char>) -> Script<
    Result<(), Seq<char>>,
> {
    Script::Ask(
        CallView::ClearRegistry { letter },
        |_cleared: Reply|
            Script::Ask(
                CallView::DeleteMountPoint { mount_root: drive_root(letter) },
                |_deleted: Reply|
                    bind(
                        remove_local_script(letter, hint),
                        |free: bool| after_local_script(letter, hint, free),
                    ),
            ),
    )
}

fn not_removed(letter: char) -> (text: String)
    ensures
        text@ == not_removed_text(letter),
{
    let mut text = "Failed to remove drive letter ".to_owned();
    text.push(letter);
    text.push(':');
    text
}

fn target_text(target: &Option<String>) -> (text: String)
    ensures
        text@ == target_or_empty(*target),
{
    match target {
        Some(path) => path.clone(),
        None => String::new(),
    }
}

fn remove_checked(letter: char, symlink: &str, replies: &[Reply], at: usize) -> (progress: Progress<
    bool,
>)
    ensures
        progress.outcome() == outcome(
            remove_checked_script(letter, symlink@),
            replies@,
            at as nat,
        ),
{
    reveal_with_fuel(outcome, 3);
    if symlink.is_empty() {
        return Progress::Done { value: false, used: at };
    }
    match flag_at(replies, at) {
        None => Progress::Ask(Call::RemoveLocal { letter, target: symlink.to_owned() }),
        Some(false) => Progress::Done { value: false, used: at + 1 },
        Some(true) => match target_at(replies, at + 1) {
            None => Progress::Ask(Call::QueryDosDevice { letter }),
            Some(left) => Progress::Done { value: left.is_none(), used: at + 2 },
        },
    }
}

fn remove_local(letter: char, hint: &str, replies: &[Reply], at: usize) -> (progress: Progress<
    bool,
>)
    ensures
        progress.outcome() == outcome(remove_local_script(letter, hint@), replies@, at as nat),
{
    reveal_with_fuel(outcome, 3);
    match flag_at(replies, at) {
        None => Progress::Ask(Call::IsProcessElevated),
        Some(false) => Progress::Done { value: false, used: at + 1 },
        Some(true) => {
            if !hint.is_empty() {
                return remove_checked(letter, hint, replies, at + 1);
            }
            match target_at(replies, at + 1) {
                None => Progress::Ask(Call::QueryDosDevice { letter }),
                Some(bound) => remove_checked(letter, target_text(bound).as_str(), replies, at + 2),
            }
        },
    }
}

fn service_remove(letter: char, symlink: &str, replies: &[Reply], at: usize) -> (progress: Progress<
    Result<(), String>,
>)
    ensures
        progress.outcome() == outcome(
            service_remove_script(letter, symlink@),
            replies@,
            at as nat,
        ),
{
    reveal_with_fuel(outcome, 3);
    if symlink.is_empty() {
        return Progress::Done { value: Err(not_removed(letter)), used: at };
    }
    match service_at(replies, at) {
        None => Progress::Ask(
            Call::ServiceRemove { drive: letter as u8, target: symlink.to_owned() },
        ),
        Some(Err(err)) => {
            let mut reason = not_removed(letter);
            reason.push('\n');
            reason.append(err.as_str());
            Progress::Done { value: Err(reason), used: at + 1 }
        },
        Some(Ok(true)) => Progress::Done { value: Ok(()), used: at + 1 },
        Some(Ok(false)) => match target_at(replies, at + 1) {
            None => Progress::Ask(Call::QueryDosDevice { letter }),
            Some(None) => Progress::Done { value: Ok(()), used: at + 2 },
            Some(Some(_)) => Progress::Done { value: Err(not_removed(letter)), used: at + 2 },
        },
    }
}

fn remove_by_service(letter: char, hint: &str, replies: &[Reply], at: usize) -> (progress: Progress<
    Result<(), String>,
>)
    ensures
        progress.outcome() == outcome(
            remove_by_service_script(letter, hint@),
            replies@,
            at as nat,
        ),
{
    reveal_with_fuel(outcome, 3);
    let query = match drive_at(replies, at) {
        None => return Progress::Ask(Call::ServiceQuery { drive: letter as u8 }),
        Some(Err(err)) => {
            let mut reason = not_removed(letter);
            reason.append("\nExt2Srv pipe: ");
            reason.append(err.as_str());
            return Progress::Done { value: Err(reason), used: at + 1 };
        },
        Some(Ok(query)) => query,
    };
    if let Some(found) = query {
        if found.result && !found.symlink.as_str().is_empty() {
            return service_remove(letter, found.symlink.as_str(), replies, at + 1);
        }
    }
    if !hint.is_empty() {
        return service_remove(letter, hint, replies, at + 1);
    }
    match target_at(replies, at + 1) {
        None => Progress::Ask(Call::QueryDosDevice { letter }),
        Some(bound) => service_remove(letter, target_text(bound).as_str(), replies, at + 2),
    }
}

/// Takes the letter away, given the replies to the calls so far: from the registry, from the Mount
/// Manager and from the DOS devices. The hint is the target of the letter, empty where the caller
/// does not know it.
pub fn unmount_letter(letter: char, symlink_hint: &str, replies: &[Reply]) -> (progress: Progress<
    Result<(), String>,
>)
    ensures
        progress.outcome() == outcome(unmount_letter_script(letter, symlink_hint@), replies@, 0),
{
    reveal_with_fuel(outcome, 3);
    if status_at(replies, 0).is_none() {
        return Progress::Ask(Call::ClearRegistry { letter });
    }
    if status_at(replies, 1).is_none() {
        return Progress::Ask(Call::DeleteMountPoint { mount_root: drive_root_text(letter) });
    }
    proof {
        lemma_outcome_bind(
            remove_local_script(letter, symlink_hint@),
            |free: bool| after_local_script(letter, symlink_hint@, free),
            replies@,
            2,
        );
    }
    match remove_local(letter, symlink_hint, replies, 2) {
        Progress::Ask(call) => Progress::Ask(call),
        Progress::Done { value: true, used } => Progress::Done { value: Ok(()), used },
        Progress::Done { value: false, used } => remove_by_service(
            letter,
            symlink_hint,
            replies,
            used,
        ),
    }
}

} // verus!
