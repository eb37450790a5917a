//! Mounting a volume under a drive letter, in one of four ways that last for different times.

use vstd::prelude::*;

use crate::protocol::{
    flag_at, name_at, service_at, status_at, target_at, text_at, Call, CallView, Reply,
};
use crate::script::{bind, lemma_outcome_bind, outcome, Modeled, Progress, Script};
use crate::text::ends_with;

verus! {

/// How a drive letter is kept.
#[derive(Debug, Clone, Copy, PartialEq, Eq, Structural)]
pub enum MountMode {
    /// A DOS device only (lost after reboot).
    Temporary,
    /// The Windows Mount Manager (`SetVolumeMountPoint`).
    MountManager,
    /// The Session Manager's DOS devices in the registry (survives reboot).
    PermanentRegistry,
    /// Ext2Fsd's `Volumes\{UUID}` automount: the configuration persists, the letter is bound again
    /// on each refresh.
    Ext2Automount,
}

/// A drive letter for a volume.
#[derive(Debug, Clone)]
pub struct MountRequest {
    pub letter: char,
    pub mode: MountMode,
    /// The NT path that is written to the Session Manager or bound as a DOS device
    /// (`\Device\HarddiskVolumeN`).
    pub symlink: String,
    pub win32_volume_name: String,
    /// Needed for [`MountMode::Ext2Automount`].
    pub uuid: Option<[u8; 16]>,
    pub codepage: String,
    pub readonly: bool,
}

/// The root directory of the drive: `X:\`.
pub open spec fn drive_root(letter: char) -> Seq<char> {
    seq![letter, ':', '\\']
}

/// The volume name with a backslash at its end.
pub open spec fn closed_name(name: Seq<char>) -> Seq<char> {
    if name.len() > 0 && name.last() == '\\' {
        name
    } else {
        name.push('\\')
    }
}

/// What the reply of the drive service means for a letter that it was to bind.
pub open spec fn define_result(letter: char, reply: Result<bool, String>) -> Result<(), Seq<char>> {
    match reply {
        Ok(true) => Ok(()),
        Ok(false) => Err("Failed to assign new drive letter "@.push(letter).push(':')),
        Err(err) => Err(
            ("Ext2Fsd service is not started.\n(Ext2Srv pipe: "@ + err@).push(')'),
        ),
    }
}

/// Binding a letter by way of the drive service.
pub open spec fn service_define_script(letter: char, symlink: Seq<char>) -> Script<
    Result<(), Seq<char>>,
> {
    Script::Ask(
        CallView::ServiceDefine { drive: letter as u8, target: symlink },
        |done: Reply| Script::Done(define_result(letter, done->Service_0)),
    )
}

/// Binding a letter as a DOS device: from this process where it is elevated, and by way of the
/// drive service where it is not or where that has failed.
pub open spec fn define_temporary_script(letter: char, symlink: Seq<char>) -> Script<
    Result<(), Seq<char>>,
> {
    Script::Ask(
        CallView::IsProcessElevated,
        |elevated: Reply|
            if elevated->Flag_0 {
                Script::Ask(
                    CallView::DefineLocal { letter, target: symlink },
                    |done: Reply|
                        if done->Flag_0 {
                            Script::Done(Ok(()))
                        } else {
                            service_define_script(letter, symlink)
                        },
                )
            } else {
                service_define_script(letter, symlink)
            },
    )
}

/// Entering a volume in the Mount Manager.
pub open spec fn set_mount_point_script(letter: char, volume_name: Seq<char>) -> Script<
    Result<(), Seq<char>>,
> {
    Script::Ask(
        CallView::SetMountPoint { mount_root: drive_root(letter), volume_name },
        |done: Reply| Script::Done(done->Status_0.model()),
    )
}

/// Finding the name of a volume that is bound to the letter, and taking the binding back.
pub open spec fn probe_script(letter: char, symlink: Seq<char>) -> Script<
    Result<Seq<char>, Seq<char>>,
> {
    let unbind = CallView::RemoveLocal { letter, target: symlink };
    Script::Ask(
        CallView::VolumeName { mount_root: drive_root(letter) },
        |probed: Reply|
            Script::Ask(
                unbind,
                |_removed: Reply|
                    if probed->Name_0 is Err {
                        Script::Done(probed->Name_0.model())
                    } else {
                        Script::Ask(
                            CallView::QueryDosDevice { letter },
                            |left: Reply|
                                if left->Target_0 is Some {
                                    Script::Ask(
                                        unbind,
                                        |_again: Reply| Script::Done(probed->Name_0.model()),
                                    )
                                } else {
                                    Script::Done(probed->Name_0.model())
                                },
                        )
                    },
            ),
    )
}

/// Entering a volume in the Mount Manager under the name that was found, if one was.
pub open spec fn enter_probed_script(letter: char, probed: Result<Seq<char>, Seq<char>>) -> Script<
    Result<(), Seq<char>>,
> {
    match probed {
        Err(reason) => Script::Done(Err(reason)),
        Ok(name) => set_mount_point_script(letter, name),
    }
}

/// Entering a volume in the Mount Manager once it is bound to the letter, if it is.
pub open spec fn enter_bound_script(
    letter: char,
    symlink: Seq<char>,
    defined: Result<(), Seq<char>>,
) -> Script<Result<(), Seq<char>>> {
    match defined {
        Err(reason) => Script::Done(Err(reason)),
        Ok(_) => bind(
            probe_script(letter, symlink),
            |probed: Result<Seq<char>, Seq<char>>| enter_probed_script(letter, probed),
        ),
    }
}

/// Giving a volume its letter in the Mount Manager. A volume without a known name is bound to the
/// letter for as long as it takes to ask for its name.
pub open spec fn assign_via_mount_manager_script(
    letter: char,
    symlink: Seq<char>,
    win32_volume_name: Seq<char>,
) -> Script<Result<(), Seq<char>>> {
    if win32_volume_name.len() > 0 {
        set_mount_point_script(letter, closed_name(win32_volume_name))
    } else {
        bind(
            define_temporary_script(letter, symlink),
            |defined: Result<(), Seq<char>>| enter_bound_script(letter, symlink, defined),
        )
    }
}

/// What is said of a letter that is mounted.
pub open spec fn mounted_text(letter: char, how: Seq<char>) -> Seq<char> {
    "Mounted "@.push(letter) + how
}

/// The end of a mount: the text for success, or the reason why a step before has failed.
pub open spec fn report_script(letter: char, how: Seq<char>, done: Result<(), Seq<char>>) -> Script<
    Result<Seq<char>, Seq<char>>,
> {
    match done {
        Err(reason) => Script::Done(Err(reason)),
        Ok(_) => Script::Done(Ok(mounted_text(letter, how))),
    }
}

/// Binding the letter of the request as a DOS device, with this text for success.
pub open spec fn bind_letter_script(request: MountRequest, how: Seq<char>) -> Script<
    Result<Seq<char>, Seq<char>>,
> {
    bind(
        define_temporary_script(request.letter, request.symlink@),
        |defined: Result<(), Seq<char>>| report_script(request.letter, how, defined),
    )
}

/// The end of an automount: the text for success names the volume's UUID.
pub open spec fn report_automount_script(
    letter: char,
    uuid: [u8; 16],
    defined: Result<(), Seq<char>>,
) -> Script<Result<Seq<char>, Seq<char>>> {
    match defined {
        Err(reason) => Script::Done(Err(reason)),
        Ok(_) => Script::Ask(
            CallView::FormatUuid { uuid },
            |name: Reply|
                Script::Done(
                    Ok(
                        mounted_text(
                            letter,
                            ": Ext2Fsd automount saved under Volumes\\"@ + name->Text_0@
                                + " (persists; remounted on refresh)"@,
                        ),
                    ),
                ),
        ),
    }
}

/// Storing the automount entry of the volume and then binding its letter.
pub open spec fn automount_script(request: MountRequest, uuid: [u8; 16]) -> Script<
    Result<Seq<char>, Seq<char>>,
> {
    Script::Ask(
        CallView::StoreAutomount {
            uuid,
            letter: request.letter,
            codepage: request.codepage@,
            readonly: request.readonly,
        },
        |stored: Reply|
            match stored->Status_0 {
                Err(reason) => Script::Done(Err(reason@)),
                Ok(_) => bind(
                    define_temporary_script(request.letter, request.symlink@),
                    |defined: Result<(), Seq<char>>|
                        report_automount_script(request.letter, uuid, defined),
                ),
            },
    )
}

/// Mounting a volume as the request says.
pub open spec fn mount_volume_script(request: MountRequest) -> Script<
    Result<Seq<char>, Seq<char>>,
> {
    match request.mode {
        MountMode::Temporary => bind_letter_script(
            request,
            ": temporary via DefineDosDevice (lost after reboot)"@,
        ),
        MountMode::MountManager => bind(
            assign_via_mount_manager_script(
                request.letter,
                request.symlink@,
                request.win32_volume_name@,
            ),
            |assigned: Result<(), Seq<char>>|
                report_script(
                    request.letter,
                    ": permanent via Mount Manager (SetVolumeMountPoint)"@,
                    assigned,
                ),
        ),
        MountMode::PermanentRegistry => Script::Ask(
            CallView::SetRegistry { letter: request.letter, target: request.symlink@ },
            |written: Reply|
                match written->Status_0 {
                    Err(reason) => Script::Done(Err(reason@)),
                    Ok(_) => bind_letter_script(
                        request,
                        ": Session Manager DOS Devices (registry; immediate DefineDosDevice bind)"@,
                    ),
                },
        ),
        MountMode::Ext2Automount => match request.uuid {
            None => Script::Done(
                Err("Ext2Fsd automount needs an EXT volume UUID (select an EXT2/3/4 volume)"@),
            ),
            Some(uuid) => automount_script(request, uuid),
        },
    }
}

pub(crate) fn drive_root_text(letter: char) -> (root: String)
    ensures
        root@ == drive_root(letter),
{
    let mut root = String::new();
    root.push(letter);
    root.push(':');
    root.push('\\');
    root
}

fn service_define(letter: char, symlink: &str, replies: &[Reply], at: usize) -> (progress: Progress<
    Result<(), String>,
>)
    ensures
        progress.outcome() == outcome(
            service_define_script(letter, symlink@),
            replies@,
            at as nat,
        ),
{
    reveal_with_fuel(outcome, 2);
    match service_at(replies, at) {
        None => Progress::Ask(
            Call::ServiceDefine { drive: letter as u8, target: symlink.to_owned() },
        ),
        Some(Ok(true)) => Progress::Done { value: Ok(()), used: at + 1 },
        Some(Ok(false)) => {
            let mut reason = "Failed to assign new drive letter ".to_owned();
            reason.push(letter);
            reason.push(':');
            Progress::Done { value: Err(reason), used: at + 1 }
        },
        Some(Err(err)) => {
            let mut reason = "Ext2Fsd service is not started.\n(Ext2Srv pipe: ".to_owned();
            reason.append(err.as_str());
            reason.push(')');
            Progress::Done { value: Err(reason), used: at + 1 }
        },
    }
}

/// Binds the letter as a DOS device, given the replies from position `at` on: from this process
/// where it is elevated, and by way of the drive service where it is not or where that has failed.
pub fn define_temporary(letter: char, symlink: &str, replies: &[Reply], at: usize) -> (progress:
    Progress<Result<(), String>>)
    ensures
        progress.outcome() == outcome(
            define_temporary_script(letter, symlink@),
            replies@,
            at as nat,
        ),
{
    reveal_with_fuel(outcome, 3);
    match flag_at(replies, at) {
        None => Progress::Ask(Call::IsProcessElevated),
        Some(false) => service_define(letter, symlink, replies, at + 1),
        Some(true) => match flag_at(replies, at + 1) {
            None => Progress::Ask(Call::DefineLocal { letter, target: symlink.to_owned() }),
            Some(true) => Progress::Done { value: Ok(()), used: at + 2 },
            Some(false) => service_define(letter, symlink, replies, at + 2),
        },
    }
}

fn set_mount_point(letter: char, volume_name: String, replies: &[Reply], at: usize) -> (progress:
    Progress<Result<(), String>>)
    ensures
        progress.outcome() == outcome(
            set_mount_point_script(letter, volume_name@),
            replies@,
            at as nat,
        ),
{
    reveal_with_fuel(outcome, 2);
    match status_at(replies, at) {
        None => Progress::Ask(
            Call::SetMountPoint { mount_root: drive_root_text(letter), volume_name },
        ),
        Some(Ok(_)) => Progress::Done { value: Ok(()), used: at + 1 },
        Some(Err(reason)) => Progress::Done { value: Err(reason.clone()), used: at + 1 },
    }
}

fn probe(letter: char, symlink: &str, replies: &[Reply], at: usize) -> (progress: Progress<
    Result<String, String>,
>)
    ensures
        progress.outcome() == outcome(probe_script(letter, symlink@), replies@, at as nat),
{
    reveal_with_fuel(outcome, 5);
    let probed = match name_at(replies, at) {
        None => return Progress::Ask(Call::VolumeName { mount_root: drive_root_text(letter) }),
        Some(probed) => probed,
    };
    if flag_at(replies, at + 1).is_none() {
        return Progress::Ask(Call::RemoveLocal { letter, target: symlink.to_owned() });
    }
    let name = match probed {
        Err(reason) => return Progress::Done { value: Err(reason.clone()), used: at + 2 },
        Ok(name) => name,
    };
    match target_at(replies, at + 2) {
        None => Progress::Ask(Call::QueryDosDevice { letter }),
        Some(None) => Progress::Done { value: Ok(name.clone()), used: at + 3 },
        Some(Some(_)) => {
            if flag_at(replies, at + 3).is_none() {
                Progress::Ask(Call::RemoveLocal { letter, target: symlink.to_owned() })
            } else {
                Progress::Done { value: Ok(name.clone()), used: at + 4 }
            }
        },
    }
}

/// Gives the volume its letter in the Mount Manager, given the replies from position `at` on. A
/// volume without a known name is bound to the letter for as long as it takes to ask for its name.
pub fn assign_via_mount_manager(
    letter: char,
    symlink: &str,
    win32_volume_name: &str,
    replies: &[Reply],
    at: usize,
) -> (progress: Progress<Result<(), String>>)
    ensures
        progress.outcome() == outcome(
            assign_via_mount_manager_script(letter, symlink@, win32_volume_name@),
            replies@,
            at as nat,
        ),
{
    if !win32_volume_name.is_empty() {
        let mut name = win32_volume_name.to_owned();
        if !ends_with(win32_volume_name, '\\') {
            name.push('\\');
        }
        return set_mount_point(letter, name, replies, at);
    }
    proof {
        lemma_outcome_bind(
            define_temporary_script(letter, symlink@),
            |defined: Result<(), Seq<char>>| enter_bound_script(letter, symlink@, defined),
            replies@,
            at as nat,
        );
    }
    let bound = match define_temporary(letter, symlink, replies, at) {
        Progress::Ask(call) => return Progress::Ask(call),
        Progress::Done { value: Err(reason), used } => return Progress::Done {
            value: Err(reason),
            used,
        },
        Progress::Done { value: Ok(_), used } => used,
    };
    proof {
        lemma_outcome_bind(
            probe_script(letter, symlink@),
            |probed: Result<Seq<char>, Seq<char>>| enter_probed_script(letter, probed),
            replies@,
            bound as nat,
        );
    }
    match probe(letter, symlink, replies, bound) {
        Progress::Ask(call) => Progress::Ask(call),
        Progress::Done { value: Err(reason), used } => Progress::Done { value: Err(reason), used },
        Progress::Done { value: Ok(name), used } => set_mount_point(letter, name, replies, used),
    }
}

fn report(letter: char, how: &str, done: Progress<Result<(), String>>) -> (progress: Progress<
    Result<String, String>,
>)
    ensures
        match done {
            Progress::Ask(call) => progress == Progress::<Result<String, String>>::Ask(call),
            Progress::Done { value, used } => forall|replies: Seq<Reply>|
                progress.outcome() == #[trigger] outcome(
                    report_script(letter, how@, value.model()),
                    replies,
                    used as nat,
                ),
        },
{
    match done {
        Progress::Ask(call) => Progress::Ask(call),
        Progress::Done { value: Err(reason), used } => Progress::Done { value: Err(reason), used },
        Progress::Done { value: Ok(_), used } => {
            let mut text = "Mounted ".to_owned();
            text.push(letter);
            text.append(how);
            Progress::Done { value: Ok(text), used }
        },
    }
}

fn bind_letter(request: &MountRequest, how: &str, replies: &[Reply], at: usize) -> (progress:
    Progress<Result<String, String>>)
    ensures
        progress.outcome() == outcome(bind_letter_script(*request, how@), replies@, at as nat),
{
    proof {
        lemma_outcome_bind(
            define_temporary_script(request.letter, request.symlink@),
            |defined: Result<(), Seq<char>>| report_script(request.letter, how@, defined),
            replies@,
            at as nat,
        );
    }
    report(
        request.letter,
        how,
        define_temporary(request.letter, request.symlink.as_str(), replies, at),
    )
}

fn automount(request: &MountRequest, uuid: [u8; 16], replies: &[Reply]) -> (progress: Progress<
    Result<String, String>,
>)
    ensures
        progress.outcome() == outcome(automount_script(*request, uuid), replies@, 0),
{
    reveal_with_fuel(outcome, 2);
    let letter = request.letter;
    match status_at(replies, 0) {
        None => return Progress::Ask(
            Call::StoreAutomount {
                uuid,
                letter,
                codepage: request.codepage.clone(),
                readonly: request.readonly,
            },
        ),
        Some(Err(reason)) => return Progress::Done { value: Err(reason.clone()), used: 1 },
        Some(Ok(_)) => {},
    }
    proof {
        lemma_outcome_bind(
            define_temporary_script(letter, request.symlink@),
            |defined: Result<(), Seq<char>>| report_automount_script(letter, uuid, defined),
            replies@,
            1,
        );
    }
    let bound = match define_temporary(letter, request.symlink.as_str(), replies, 1) {
        Progress::Ask(call) => return Progress::Ask(call),
        Progress::Done { value: Err(reason), used } => return Progress::Done {
            value: Err(reason),
            used,
        },
        Progress::Done { value: Ok(_), used } => used,
    };
    match text_at(replies, bound) {
        None => Progress::Ask(Call::FormatUuid { uuid }),
        Some(name) => {
            let mut text = "Mounted ".to_owned();
            text.push(letter);
            let mut how = ": Ext2Fsd automount saved under Volumes\\".to_owned();
            how.append(name.as_str());
            how.append(" (persists; remounted on refresh)");
            text.append(how.as_str());
            Progress::Done { value: Ok(text), used: bound + 1 }
        },
    }
}

/// Mounts the volume as the request says, given the replies to the calls so far; ends with a text
/// for the user, or with the reason why the volume is not mounted.
pub fn mount_volume(request: &MountRequest, replies: &[Reply]) -> (progress: Progress<
    Result<String, String>,
>)
    ensures
        progress.outcome() == outcome(mount_volume_script(*request), replies@, 0),
{
    let letter = request.letter;
    match request.mode {
        MountMode::Temporary => bind_letter(
            request,
            ": temporary via DefineDosDevice (lost after reboot)",
            replies,
            0,
        ),
        MountMode::MountManager => {
            let how = ": permanent via Mount Manager (SetVolumeMountPoint)";
            proof {
                lemma_outcome_bind(
                    assign_via_mount_manager_script(
                        letter,
                        request.symlink@,
                        request.win32_volume_name@,
                    ),
                    |assigned: Result<(), Seq<char>>|
                        report_script(
                            letter,
                            ": permanent via Mount Manager (SetVolumeMountPoint)"@,
                            assigned,
                        ),
                    replies@,
                    0,
                );
            }
            report(
                letter,
                how,
                assign_via_mount_manager(
                    letter,
                    request.symlink.as_str(),
                    request.win32_volume_name.as_str(),
                    replies,
                    0,
                ),
            )
        },
        MountMode::PermanentRegistry => {
            reveal_with_fuel(outcome, 2);
            match status_at(replies, 0) {
                None => Progress::Ask(
                    Call::SetRegistry { letter, target: request.symlink.clone() },
                ),
                Some(Err(reason)) => Progress::Done { value: Err(reason.clone()), used: 1 },
                Some(Ok(_)) => bind_letter(
                    request,
                    ": Session Manager DOS Devices (registry; immediate DefineDosDevice bind)",
                    replies,
                    1,
                ),
            }
        },
        MountMode::Ext2Automount => match request.uuid {
            None => Progress::Done {
                value: Err(
                    "Ext2Fsd automount needs an EXT volume UUID (select an EXT2/3/4 volume)"
                        .to_owned(),
                ),
                used: 0,
            },
            Some(uuid) => automount(request, uuid, replies),
        },
    }
}

} // verus!
