//! Binding the letters of volumes that should have one and do not: those with a stored automount
//! entry, and those that the Session Manager's DOS devices name.

use vstd::prelude::*;

use crate::letters::{free_drive_letters, free_letters};
use crate::mount::{define_temporary, define_temporary_script};
use crate::protocol::{
    letter_at, letters_at, mask_at, target_at, text_at, Call, CallView, Reply,
};
use crate::report::{AutomountReport, ReportModel};
use crate::script::{
    bind, law_one_reply_for_each_call, lemma_outcome_bind, lemma_outcome_bind_any, outcome,
    Modeled, Progress, Script,
};
use crate::volume::{
    device_path, device_target, dos_device_target, in_ext_family, is_ext_family, volume_device,
    VolumeEntry,
};

verus! {

/// Whether something is mounted from the volume: it has a letter, or the Mount Manager holds one
/// for it.
pub open spec fn live_script(volume: VolumeEntry) -> Script<bool> {
    if volume.letters@.len() > 0 {
        Script::Done(true)
    } else if volume.win32_volume_name@.len() > 0 {
        Script::Ask(
            CallView::MountManagerLetters { volume_name: volume.win32_volume_name@ },
            |held: Reply| Script::Done(held->Letters_0@.len() > 0),
        )
    } else {
        Script::Done(false)
    }
}

/// The letter in the automount entry of the volume; only an EXT volume with a UUID can have one.
pub open spec fn stored_letter_script(volume: VolumeEntry) -> Script<Option<char>> {
    if in_ext_family(volume.filesystem@) && volume.uuid is Some {
        Script::Ask(
            CallView::AutomountLetter { uuid: volume.uuid->0 },
            |stored: Reply| Script::Done(stored->Letter_0),
        )
    } else {
        Script::Done(None)
    }
}

/// The first letter from position `from` on that is not bound to anything.
pub open spec fn unbound_letter_script(free: Seq<char>, from: nat) -> Script<Option<char>>
    decreases free.len() - from,
{
    if from >= free.len() {
        Script::Done(None)
    } else {
        Script::Ask(
            CallView::QueryDosDevice { letter: free[from as int] },
            |bound: Reply|
                if bound->Target_0 is None {
                    Script::Done(Some(free[from as int]))
                } else {
                    unbound_letter_script(free, from + 1)
                },
        )
    }
}

/// The letter to bind: the preferred one if it is free and not bound to anything, else the first
/// such letter.
pub open spec fn choose_letter_script(free: Seq<char>, preferred: char) -> Script<Option<char>> {
    if free.contains(preferred) {
        Script::Ask(
            CallView::QueryDosDevice { letter: preferred },
            |bound: Reply|
                if bound->Target_0 is None {
                    Script::Done(Some(preferred))
                } else {
                    unbound_letter_script(free, 0)
                },
        )
    } else {
        unbound_letter_script(free, 0)
    }
}

/// The line for a letter that was bound by its automount entry.
pub open spec fn automount_line(letter: char, target: Seq<char>) -> Seq<char> {
    (seq![letter] + ": (Ext2Fsd automount → "@ + target).push(')')
}

/// The line for a letter that was bound as the Session Manager's DOS devices say.
pub open spec fn session_line(letter: char, device: Seq<char>) -> Seq<char> {
    (seq![letter] + ": (Session Manager → "@ + device).push(')')
}

/// Binding the letter, with this line in the report for success.
pub open spec fn bind_and_note_script(
    letter: char,
    target: Seq<char>,
    line: Seq<char>,
    report: ReportModel,
) -> Script<ReportModel> {
    bind(
        define_temporary_script(letter, target),
        |defined: Result<(), Seq<char>>| Script::Done(report.noting(defined, line)),
    )
}

/// Binding the letter that was chosen for a volume with an automount entry, if there is one.
pub open spec fn assign_script(
    volume: VolumeEntry,
    letter: Option<char>,
    report: ReportModel,
) -> Script<ReportModel> {
    let target = device_target(volume.physical_object@, volume.symlink@);
    match letter {
        Some(letter) => bind_and_note_script(
            letter,
            target,
            automount_line(letter, target),
            report,
        ),
        None => Script::Ask(
            CallView::FormatUuid { uuid: volume.uuid->0 },
            |name: Reply|
                Script::Done(
                    report.failing(name->Text_0@ + ": no free letter for Ext2Fsd automount"@),
                ),
        ),
    }
}

/// A volume with an automount entry: skipped where it is live, else given a letter.
pub open spec fn restore_script(
    volume: VolumeEntry,
    preferred: char,
    live: bool,
    free: Seq<char>,
    report: ReportModel,
) -> Script<ReportModel> {
    if live {
        Script::Done(report.skipping())
    } else {
        bind(
            choose_letter_script(free, preferred),
            |letter: Option<char>| assign_script(volume, letter, report),
        )
    }
}

/// Binding those of the letters from position `from` on that are not bound to anything.
pub open spec fn session_letters_script(
    device: Seq<char>,
    letters: Seq<char>,
    from: nat,
    report: ReportModel,
) -> Script<ReportModel>
    decreases letters.len() - from,
{
    if from >= letters.len() {
        Script::Done(report)
    } else {
        let letter = letters[from as int];
        Script::Ask(
            CallView::QueryDosDevice { letter },
            |bound: Reply|
                if bound->Target_0 is Some {
                    session_letters_script(device, letters, from + 1, report.skipping())
                } else {
                    bind(
                        bind_and_note_script(letter, device, session_line(letter, device), report),
                        |noted: ReportModel|
                            session_letters_script(device, letters, from + 1, noted),
                    )
                },
        )
    }
}

/// A volume without an automount entry: the letters that the Session Manager's DOS devices bind to
/// its device are skipped where it is live, else bound.
pub open spec fn session_script(volume: VolumeEntry, live: bool, report: ReportModel) -> Script<
    ReportModel,
> {
    let device = device_path(volume.physical_object@, volume.symlink@);
    if device.len() == 0 {
        Script::Done(report)
    } else {
        Script::Ask(
            CallView::RegistryLetters { device },
            |named: Reply|
                if named->Letters_0@.len() == 0 {
                    Script::Done(report)
                } else if live {
                    Script::Done(report.skipping())
                } else {
                    session_letters_script(device, named->Letters_0@, 0, report)
                },
        )
    }
}

/// What becomes of a volume once it is known whether it has an automount entry.
pub open spec fn settle_script(
    volume: VolumeEntry,
    live: bool,
    stored: Option<char>,
    free: Seq<char>,
    report: ReportModel,
) -> Script<ReportModel> {
    match stored {
        Some(preferred) => restore_script(volume, preferred, live, free, report),
        None => session_script(volume, live, report),
    }
}

/// What becomes of a volume once it is known whether it is live.
pub open spec fn known_volume_script(
    volume: VolumeEntry,
    live: bool,
    free: Seq<char>,
    report: ReportModel,
) -> Script<ReportModel> {
    bind(
        stored_letter_script(volume),
        |stored: Option<char>| settle_script(volume, live, stored, free, report),
    )
}

/// What becomes of one volume.
pub open spec fn volume_script(volume: VolumeEntry, free: Seq<char>, report: ReportModel) -> Script<
    ReportModel,
> {
    bind(live_script(volume), |live: bool| known_volume_script(volume, live, free, report))
}

/// What becomes of the volumes from position `from` on, one after another.
pub open spec fn volumes_script(
    volumes: Seq<VolumeEntry>,
    from: nat,
    free: Seq<char>,
    report: ReportModel,
) -> Script<ReportModel>
    decreases volumes.len() - from,
{
    if from >= volumes.len() {
        Script::Done(report)
    } else {
        bind(
            volume_script(volumes[from as int], free, report),
            |next: ReportModel| volumes_script(volumes, from + 1, free, next),
        )
    }
}

/// A pass over the volumes, with the letters that are free at its start.
pub open spec fn pending_automounts_script(volumes: Seq<VolumeEntry>) -> Script<ReportModel> {
    Script::Ask(
        CallView::LogicalDrives,
        |drives: Reply|
            volumes_script(volumes, 0, free_letters(drives->Mask_0), ReportModel::start()),
    )
}

fn is_live(volume: &VolumeEntry, replies: &[Reply], at: usize) -> (progress: Progress<bool>)
    ensures
        progress.outcome() == outcome(live_script(*volume), replies@, at as nat),
{
    reveal_with_fuel(outcome, 2);
    if !volume.letters.is_empty() {
        return Progress::Done { value: true, used: at };
    }
    if volume.win32_volume_name.as_str().is_empty() {
        return Progress::Done { value: false, used: at };
    }
    match letters_at(replies, at) {
        None => Progress::Ask(
            Call::MountManagerLetters { volume_name: volume.win32_volume_name.clone() },
        ),
        Some(held) => Progress::Done { value: !held.is_empty(), used: at + 1 },
    }
}

fn stored_letter(volume: &VolumeEntry, replies: &[Reply], at: usize) -> (progress: Progress<
    Option<char>,
>)
    ensures
        progress.outcome() == outcome(stored_letter_script(*volume), replies@, at as nat),
{
    reveal_with_fuel(outcome, 2);
    if is_ext_family(volume.filesystem.as_str()) {
        if let Some(uuid) = volume.uuid {
            return match letter_at(replies, at) {
                None => Progress::Ask(Call::AutomountLetter { uuid }),
                Some(stored) => Progress::Done { value: stored, used: at + 1 },
            };
        }
    }
    Progress::Done { value: None, used: at }
}

fn unbound_letter(free: &Vec<char>, replies: &[Reply], at: usize) -> (progress: Progress<
    Option<char>,
>)
    ensures
        progress.outcome() == outcome(unbound_letter_script(free@, 0), replies@, at as nat),
{
    let mut from: usize = 0;
    let mut here: usize = at;
    while from < free.len()
        invariant
            from <= free@.len(),
            outcome(unbound_letter_script(free@, from as nat), replies@, here as nat) == outcome(
                unbound_letter_script(free@, 0),
                replies@,
                at as nat,
            ),
        decreases free@.len() - from,
    {
        reveal_with_fuel(outcome, 2);
        let letter = free[from];
        match target_at(replies, here) {
            None => return Progress::Ask(Call::QueryDosDevice { letter }),
            Some(None) => return Progress::Done { value: Some(letter), used: here + 1 },
            Some(Some(_)) => {},
        }
        from = from + 1;
        here = here + 1;
    }
    Progress::Done { value: None, used: here }
}

fn contains(letters: &Vec<char>, wanted: char) -> (found: bool)
    ensures
        found == letters@.contains(wanted),
{
    let mut at: usize = 0;
    while at < letters.len()
        invariant
            at <= letters@.len(),
            forall|i: int| 0 <= i < at ==> letters@[i] != wanted,
        decreases letters@.len() - at,
    {
        if letters[at] == wanted {
            return true;
        }
        at = at + 1;
    }
    false
}

fn choose_letter(free: &Vec<char>, preferred: char, replies: &[Reply], at: usize) -> (progress:
    Progress<Option<char>>)
    ensures
        progress.outcome() == outcome(choose_letter_script(free@, preferred), replies@, at as nat),
{
    reveal_with_fuel(outcome, 2);
    if !contains(free, preferred) {
        return unbound_letter(free, replies, at);
    }
    match target_at(replies, at) {
        None => Progress::Ask(Call::QueryDosDevice { letter: preferred }),
        Some(None) => Progress::Done { value: Some(preferred), used: at + 1 },
        Some(Some(_)) => unbound_letter(free, replies, at + 1),
    }
}

/// A report can count one skipped letter for each reply: the count stays below the position.
spec fn counted(progress: Progress<AutomountReport>) -> bool {
    progress matches Progress::Done { value, used } ==> value.already_mounted <= used
}

fn bind_and_note(
    letter: char,
    target: &str,
    line: String,
    report: AutomountReport,
    replies: &[Reply],
    at: usize,
) -> (progress: Progress<AutomountReport>)
    requires
        report.already_mounted <= at,
    ensures
        progress.outcome() == outcome(
            bind_and_note_script(letter, target@, line@, report.model()),
            replies@,
            at as nat,
        ),
        counted(progress),
{
    proof {
        lemma_outcome_bind(
            define_temporary_script(letter, target@),
            |defined: Result<(), Seq<char>>|
                Script::Done(report.model().noting(defined, line@)),
            replies@,
            at as nat,
        );
        law_one_reply_for_each_call(define_temporary_script(letter, target@), replies@, at as nat);
    }
    match define_temporary(letter, target, replies, at) {
        Progress::Ask(call) => Progress::Ask(call),
        Progress::Done { value: Ok(_), used } => Progress::Done {
            value: report.mounting(line),
            used,
        },
        Progress::Done { value: Err(reason), used } => Progress::Done {
            value: report.failing(reason),
            used,
        },
    }
}

fn assign(
    volume: &VolumeEntry,
    uuid: [u8; 16],
    letter: Option<char>,
    report: AutomountReport,
    replies: &[Reply],
    at: usize,
) -> (progress: Progress<AutomountReport>)
    requires
        volume.uuid == Some(uuid),
        report.already_mounted <= at,
    ensures
        progress.outcome() == outcome(
            assign_script(*volume, letter, report.model()),
            replies@,
            at as nat,
        ),
        counted(progress),
{
    reveal_with_fuel(outcome, 2);
    match letter {
        Some(letter) => {
            let target = dos_device_target(
                volume.physical_object.as_str(),
                volume.symlink.as_str(),
            );
            let mut line = String::new();
            line.push(letter);
            assert(line@ == seq![letter]);
            line.append(": (Ext2Fsd automount → ");
            line.append(target.as_str());
            line.push(')');
            bind_and_note(letter, target.as_str(), line, report, replies, at)
        },
        None => match text_at(replies, at) {
            None => Progress::Ask(Call::FormatUuid { uuid }),
            Some(name) => {
                let mut reason = name.clone();
                reason.append(": no free letter for Ext2Fsd automount");
                Progress::Done { value: report.failing(reason), used: at + 1 }
            },
        },
    }
}

fn restore(
    volume: &VolumeEntry,
    uuid: [u8; 16],
    preferred: char,
    live: bool,
    free: &Vec<char>,
    report: AutomountReport,
    replies: &[Reply],
    at: usize,
) -> (progress: Progress<AutomountReport>)
    requires
        volume.uuid == Some(uuid),
        report.already_mounted < at,
    ensures
        progress.outcome() == outcome(
            restore_script(*volume, preferred, live, free@, report.model()),
            replies@,
            at as nat,
        ),
        counted(progress),
{
    if live {
        return Progress::Done { value: report.skipping(), used: at };
    }
    proof {
        lemma_outcome_bind(
            choose_letter_script(free@, preferred),
            |letter: Option<char>| assign_script(*volume, letter, report.model()),
            replies@,
            at as nat,
        );
        law_one_reply_for_each_call(choose_letter_script(free@, preferred), replies@, at as nat);
    }
    match choose_letter(free, preferred, replies, at) {
        Progress::Ask(call) => Progress::Ask(call),
        Progress::Done { value: letter, used } => assign(
            volume,
            uuid,
            letter,
            report,
            replies,
            used,
        ),
    }
}

fn session_letters(
    device: &str,
    letters: &Vec<char>,
    report: AutomountReport,
    replies: &[Reply],
    at: usize,
) -> (progress: Progress<AutomountReport>)
    requires
        report.already_mounted <= at,
    ensures
        progress.outcome() == outcome(
            session_letters_script(device@, letters@, 0, report.model()),
            replies@,
            at as nat,
        ),
        counted(progress),
{
    let ghost start = report.model();
    let mut current = report;
    let mut from: usize = 0;
    let mut here: usize = at;
    while from < letters.len()
        invariant
            from <= letters@.len(),
            start == report.model(),
            current.already_mounted <= here,
            outcome(
                session_letters_script(device@, letters@, from as nat, current.model()),
                replies@,
                here as nat,
            ) == outcome(
                session_letters_script(device@, letters@, 0, start),
                replies@,
                at as nat,
            ),
        decreases letters@.len() - from,
    {
        reveal_with_fuel(outcome, 2);
        let letter = letters[from];
        match target_at(replies, here) {
            None => return Progress::Ask(Call::QueryDosDevice { letter }),
            Some(Some(_)) => {
                current = current.skipping();
                here = here + 1;
            },
            Some(None) => {
                let mut line = String::new();
                line.push(letter);
                assert(line@ == seq![letter]);
                line.append(": (Session Manager → ");
                line.append(device);
                line.push(')');
                proof {
                    let script = session_letters_script(
                        device@,
                        letters@,
                        from as nat,
                        current.model(),
                    );
                    let onward = (script->Ask_1)(replies@[here as int]);
                    assert(outcome(script, replies@, here as nat) == outcome(
                        onward,
                        replies@,
                        (here + 1) as nat,
                    ));
                    lemma_outcome_bind_any::<ReportModel, ReportModel>(
                        bind_and_note_script(letter, device@, line@, current.model()),
                        replies@,
                        (here + 1) as nat,
                    );
                }
                match bind_and_note(letter, device, line, current, replies, here + 1) {
                    Progress::Ask(call) => return Progress::Ask(call),
                    Progress::Done { value, used } => {
                        current = value;
                        here = used;
                    },
                }
            },
        }
        from = from + 1;
    }
    Progress::Done { value: current, used: here }
}

fn session(
    volume: &VolumeEntry,
    live: bool,
    report: AutomountReport,
    replies: &[Reply],
    at: usize,
) -> (progress: Progress<AutomountReport>)
    requires
        report.already_mounted <= at,
    ensures
        progress.outcome() == outcome(
            session_script(*volume, live, report.model()),
            replies@,
            at as nat,
        ),
        counted(progress),
{
    reveal_with_fuel(outcome, 2);
    let device = volume_device(volume);
    if device.as_str().is_empty() {
        return Progress::Done { value: report, used: at };
    }
    match letters_at(replies, at) {
        None => Progress::Ask(Call::RegistryLetters { device }),
        Some(named) => {
            if named.is_empty() {
                Progress::Done { value: report, used: at + 1 }
            } else if live {
                Progress::Done { value: report.skipping(), used: at + 1 }
            } else {
                session_letters(device.as_str(), named, report, replies, at + 1)
            }
        },
    }
}

fn process_volume(
    volume: &VolumeEntry,
    free: &Vec<char>,
    report: AutomountReport,
    replies: &[Reply],
    at: usize,
) -> (progress: Progress<AutomountReport>)
    requires
        report.already_mounted <= at,
    ensures
        progress.outcome() == outcome(
            volume_script(*volume, free@, report.model()),
            replies@,
            at as nat,
        ),
        counted(progress),
{
    proof {
        lemma_outcome_bind(
            live_script(*volume),
            |live: bool| known_volume_script(*volume, live, free@, report.model()),
            replies@,
            at as nat,
        );
        law_one_reply_for_each_call(live_script(*volume), replies@, at as nat);
    }
    let (live, known) = match is_live(volume, replies, at) {
        Progress::Ask(call) => return Progress::Ask(call),
        Progress::Done { value, used } => (value, used),
    };
    proof {
        lemma_outcome_bind(
            stored_letter_script(*volume),
            |stored: Option<char>| settle_script(*volume, live, stored, free@, report.model()),
            replies@,
            known as nat,
        );
    }
    reveal_with_fuel(outcome, 2);
    match stored_letter(volume, replies, known) {
        Progress::Ask(call) => Progress::Ask(call),
        Progress::Done { value: stored, used } => match (volume.uuid, stored) {
            (Some(uuid), Some(preferred)) => restore(
                volume,
                uuid,
                preferred,
                live,
                free,
                report,
                replies,
                used,
            ),
            _ => session(volume, live, report, replies, used),
        },
    }
}

/// One pass over the volumes, given the replies to the calls so far. A volume that should have a
/// letter, by its automount entry or by the Session Manager's DOS devices, is skipped when it has
/// one, when the Mount Manager holds one for it or when the letter is bound already; else the
/// letter is bound as a DOS device.
pub fn process_pending_automounts(volumes: &[VolumeEntry], replies: &[Reply]) -> (progress:
    Progress<AutomountReport>)
    ensures
        progress.outcome() == outcome(pending_automounts_script(volumes@), replies@, 0),
{
    reveal_with_fuel(outcome, 2);
    let free = match mask_at(replies, 0) {
        None => return Progress::Ask(Call::LogicalDrives),
        Some(mask) => free_drive_letters(mask),
    };
    let mut report = AutomountReport::default();
    let mut from: usize = 0;
    let mut here: usize = 1;
    while from < volumes.len()
        invariant
            from <= volumes@.len(),
            report.already_mounted <= here,
            outcome(
                volumes_script(volumes@, from as nat, free@, report.model()),
                replies@,
                here as nat,
            ) == outcome(pending_automounts_script(volumes@), replies@, 0),
        decreases volumes@.len() - from,
    {
        proof {
            lemma_outcome_bind_any::<ReportModel, ReportModel>(
                volume_script(volumes@[from as int], free@, report.model()),
                replies@,
                here as nat,
            );
        }
        match process_volume(&volumes[from], &free, report, replies, here) {
            Progress::Ask(call) => return Progress::Ask(call),
            Progress::Done { value, used } => {
                report = value;
                here = used;
            },
        }
        from = from + 1;
    }
    Progress::Done { value: report, used: here }
}

} // verus!
