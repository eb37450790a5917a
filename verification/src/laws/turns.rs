//! Laws of what the automount pass does for each volume.

use vstd::prelude::*;

use crate::automount::{
    assign_script, automount_line, bind_and_note_script, choose_letter_script, known_volume_script,
    live_script, restore_script, session_letters_script, session_line, session_script,
    settle_script, stored_letter_script, unbound_letter_script, volume_script,
};
use crate::laws::automounting::is_live;
use crate::mount::define_temporary_script;
use crate::protocol::{CallView, Reply};
use crate::report::ReportModel;
use crate::script::{calls, outcome, Script};
use crate::trace::{
    answered, lemma_answered, lemma_ended, lemma_obeys_bind, lemma_obeys_bind_any, lemma_rule,
    obeys, past, rule_end, rule_watch, step_after, Exchange, Step,
};
use crate::volume::{
    device_path, device_target, law_ext_family_by_its_characters, law_which_path_is_the_target,
    VolumeEntry,
};

verus! {

/// How many calls of a turn find out whether the volume is live.
pub open spec fn lookups(volume: VolumeEntry) -> int {
    if volume.letters@.len() == 0 && volume.win32_volume_name@.len() > 0 {
        1
    } else {
        0
    }
}

/// Whether the volume can have an automount entry: it has a UUID, and the name of its file system
/// begins with `ext2`, `ext3` or `ext4`, in upper or lower case.
pub open spec fn entered(volume: VolumeEntry) -> bool {
    let filesystem = volume.filesystem@;
    &&& volume.uuid is Some
    &&& filesystem.len() >= 4
    &&& filesystem[0] == 'E' || filesystem[0] == 'e'
    &&& filesystem[1] == 'X' || filesystem[1] == 'x'
    &&& filesystem[2] == 'T' || filesystem[2] == 't'
    &&& filesystem[3] == '2' || filesystem[3] == '3' || filesystem[3] == '4'
}

/// Whether the path begins with `\Device\`.
pub open spec fn under_device(path: Seq<char>) -> bool {
    path.len() >= 8 && path.take(8) == seq!['\\', 'D', 'e', 'v', 'i', 'c', 'e', '\\']
}

/// How many calls of a turn come before the registry is asked.
pub open spec fn heading(volume: VolumeEntry) -> int {
    lookups(volume) + if entered(volume) {
        1int
    } else {
        0
    }
}

/// Whether something is mounted from the volume.
spec fn live_in(volume: VolumeEntry, before: Seq<Exchange>) -> bool {
    volume.letters@.len() > 0 || (lookups(volume) == 1 && before[0].reply->Letters_0@.len() > 0)
}

/// The letter in the automount entry.
spec fn stored_in(volume: VolumeEntry, before: Seq<Exchange>) -> Option<char> {
    if entered(volume) {
        before[lookups(volume)].reply->Letter_0
    } else {
        None
    }
}

/// The letters to look up for a volume with an automount entry.
spec fn candidates(free: Seq<char>, preferred: char) -> Seq<char> {
    if free.contains(preferred) {
        seq![preferred] + free
    } else {
        free
    }
}

/// The letter that was looked up last.
pub open spec fn asked(before: Seq<Exchange>) -> char
    decreases before.len(),
{
    if before.len() == 0 {
        'A'
    } else if before.last().call is QueryDosDevice {
        before.last().call->QueryDosDevice_letter
    } else {
        asked(before.drop_last())
    }
}

/// How many letters were looked up.
pub open spec fn looked_up(before: Seq<Exchange>) -> nat
    decreases before.len(),
{
    if before.len() == 0 {
        0
    } else {
        looked_up(before.drop_last()) + if before.last().call is QueryDosDevice {
            1nat
        } else {
            0
        }
    }
}

/// Why a letter was not bound.
pub open spec fn unbound_text(letter: char, reply: Result<bool, String>) -> Seq<char> {
    match reply {
        Ok(_) => "Failed to assign new drive letter "@ + seq![letter, ':'],
        Err(err) => "Ext2Fsd service is not started.\n(Ext2Srv pipe: "@ + err@ + seq![')'],
    }
}

/// The report after the letters of the registry that were looked up so far.
pub open spec fn tally(device: Seq<char>, report: ReportModel, before: Seq<Exchange>) -> ReportModel
    decreases before.len(),
{
    if before.len() == 0 {
        report
    } else {
        let last = before.last();
        let prior = tally(device, report, before.drop_last());
        match last.call {
            CallView::QueryDosDevice { .. } => if last.reply->Target_0 is Some {
                prior.skipping()
            } else {
                prior
            },
            CallView::DefineLocal { .. } => if last.reply->Flag_0 {
                prior.mounting(
                    seq![asked(before)] + ": (Session Manager → "@ + device + seq![')'],
                )
            } else {
                prior
            },
            CallView::ServiceDefine { .. } => if last.reply->Service_0 is Ok
                && last.reply->Service_0->Ok_0 {
                prior.mounting(
                    seq![asked(before)] + ": (Session Manager → "@ + device + seq![')'],
                )
            } else {
                prior.failing(unbound_text(asked(before), last.reply->Service_0))
            },
            _ => prior,
        }
    }
}

/// The next letter to look up for a volume with an automount entry.
spec fn pick(volume: VolumeEntry, free: Seq<char>, preferred: char, k: int) -> Step<ReportModel> {
    if k < candidates(free, preferred).len() {
        Step::Call(CallView::QueryDosDevice { letter: candidates(free, preferred)[k] })
    } else {
        Step::Call(CallView::FormatUuid { uuid: volume.uuid->0 })
    }
}

/// The next letter of the registry to look up, or the end.
spec fn session_on(device: Seq<char>, letters: Seq<char>, report: ReportModel,
    before: Seq<Exchange>) -> Step<
    ReportModel,
> {
    if looked_up(before) < letters.len() {
        Step::Call(CallView::QueryDosDevice { letter: letters[looked_up(before) as int] })
    } else {
        Step::End(tally(device, report, before))
    }
}

/// How a letter that was looked up is bound, before it is known whether it could be.
spec fn binding_on(target: Seq<char>, before: Seq<Exchange>) -> Step<ReportModel> {
    let last = before.last();
    let letter = asked(before);
    match last.call {
        CallView::QueryDosDevice { .. } => Step::Call(CallView::IsProcessElevated),
        CallView::IsProcessElevated => if last.reply->Flag_0 {
            Step::Call(CallView::DefineLocal { letter, target })
        } else {
            Step::Call(CallView::ServiceDefine { drive: letter as u8, target })
        },
        _ => Step::Call(CallView::ServiceDefine { drive: letter as u8, target }),
    }
}

/// What comes next for a volume with an automount entry once a letter was looked up.
spec fn restore_next(
    volume: VolumeEntry,
    free: Seq<char>,
    preferred: char,
    report: ReportModel,
    before: Seq<Exchange>,
) -> Step<ReportModel> {
    let last = before.last();
    let target = device_target(volume.physical_object@, volume.symlink@);
    let line = seq![asked(before)] + ": (Ext2Fsd automount → "@ + target + seq![')'];
    match last.call {
        CallView::QueryDosDevice { .. } => if last.reply->Target_0 is Some {
            pick(volume, free, preferred, before.len() - lookups(volume) - 1)
        } else {
            binding_on(target, before)
        },
        CallView::DefineLocal { .. } => if last.reply->Flag_0 {
            Step::End(report.mounting(line))
        } else {
            binding_on(target, before)
        },
        CallView::ServiceDefine { .. } => if last.reply->Service_0 is Ok
            && last.reply->Service_0->Ok_0 {
            Step::End(report.mounting(line))
        } else {
            Step::End(report.failing(unbound_text(asked(before), last.reply->Service_0)))
        },
        CallView::FormatUuid { .. } => Step::End(
            report.failing(last.reply->Text_0@ + ": no free letter for Ext2Fsd automount"@),
        ),
        _ => binding_on(target, before),
    }
}

/// What comes next for a volume without an automount entry once a letter was looked up.
spec fn session_next(
    device: Seq<char>,
    letters: Seq<char>,
    report: ReportModel,
    before: Seq<Exchange>,
) -> Step<ReportModel> {
    let last = before.last();
    match last.call {
        CallView::QueryDosDevice { .. } => if last.reply->Target_0 is Some {
            session_on(device, letters, report, before)
        } else {
            binding_on(device, before)
        },
        CallView::DefineLocal { .. } => if last.reply->Flag_0 {
            session_on(device, letters, report, before)
        } else {
            binding_on(device, before)
        },
        CallView::ServiceDefine { .. } => session_on(device, letters, report, before),
        _ => binding_on(device, before),
    }
}

/// What comes next in the turn of a volume after the calls of the turn so far and their replies.
spec fn turn_next(
    volume: VolumeEntry,
    free: Seq<char>,
    report: ReportModel,
    before: Seq<Exchange>,
) -> Step<ReportModel> {
    let count = before.len() as int;
    let device = device_path(volume.physical_object@, volume.symlink@);
    let letters = before[heading(volume)].reply->Letters_0@;
    if count < lookups(volume) {
        Step::Call(CallView::MountManagerLetters { volume_name: volume.win32_volume_name@ })
    } else if count == lookups(volume) && entered(volume) {
        Step::Call(CallView::AutomountLetter { uuid: volume.uuid->0 })
    } else if stored_in(volume, before) is Some {
        let preferred = stored_in(volume, before)->0;
        if count == lookups(volume) + 1 {
            if live_in(volume, before) {
                Step::End(report.skipping())
            } else {
                pick(volume, free, preferred, 0)
            }
        } else {
            restore_next(volume, free, preferred, report, before)
        }
    } else if count == heading(volume) {
        if device.len() == 0 {
            Step::End(report)
        } else {
            Step::Call(CallView::RegistryLetters { device })
        }
    } else if count == heading(volume) + 1 {
        if letters.len() == 0 {
            Step::End(report)
        } else if live_in(volume, before) {
            Step::End(report.skipping())
        } else {
            Step::Call(CallView::QueryDosDevice { letter: letters[0] })
        }
    } else {
        session_next(device, letters, report, before)
    }
}

spec fn turn_rule(volume: VolumeEntry, free: Seq<char>, report: ReportModel) -> spec_fn(
    Seq<Exchange>,
    Step<ReportModel>,
) -> bool {
    |before: Seq<Exchange>, step: Step<ReportModel>|
        step == turn_next(volume, free, report, before)
}

proof fn lemma_pushed(device: Seq<char>, report: ReportModel)
    ensures
        forall|before: Seq<Exchange>, last: Exchange| #[trigger]
            asked(before.push(last)) == if last.call is QueryDosDevice {
                last.call->QueryDosDevice_letter
            } else {
                asked(before)
            },
        forall|before: Seq<Exchange>, last: Exchange| #[trigger]
            looked_up(before.push(last)) == looked_up(before) + if last.call is QueryDosDevice {
                1nat
            } else {
                0
            },
        forall|before: Seq<Exchange>, last: Exchange|
            !(last.call is QueryDosDevice) && !(last.call is DefineLocal) && !(
            last.call is ServiceDefine) ==> #[trigger] tally(device, report, before.push(last))
                == tally(device, report, before),
        forall|before: Seq<Exchange>, last: Exchange|
            last.call is QueryDosDevice ==> #[trigger] tally(device, report, before.push(last))
                == if last.reply->Target_0 is Some {
                tally(device, report, before).skipping()
            } else {
                tally(device, report, before)
            },
        forall|before: Seq<Exchange>, last: Exchange|
            last.call is DefineLocal ==> #[trigger] tally(device, report, before.push(last))
                == if last.reply->Flag_0 {
                tally(device, report, before).mounting(session_line(asked(before), device))
            } else {
                tally(device, report, before)
            },
        forall|before: Seq<Exchange>, last: Exchange|
            last.call is ServiceDefine ==> #[trigger] tally(device, report, before.push(last))
                == if last.reply->Service_0 is Ok && last.reply->Service_0->Ok_0 {
                tally(device, report, before).mounting(session_line(asked(before), device))
            } else {
                tally(device, report, before).failing(
                    unbound_text(asked(before), last.reply->Service_0),
                )
            },
{
    assert forall|before: Seq<Exchange>, last: Exchange| #[trigger]
        before.push(last).drop_last() == before by {}
    assert forall|text: Seq<char>| text + seq![')'] == #[trigger] text.push(')') by {}
}

/// What is said of an attempt to bind a letter.
proof fn lemma_noted(letter: char, reply: Result<bool, String>)
    ensures
        crate::mount::define_result(letter, reply) == (if reply is Ok && reply->Ok_0 {
            Ok::<(), Seq<char>>(())
        } else {
            Err(unbound_text(letter, reply))
        }),
{
    assert("Failed to assign new drive letter "@ + seq![letter, ':']
        == "Failed to assign new drive letter "@.push(letter).push(':'));
    assert forall|text: Seq<char>| text + seq![')'] == #[trigger] text.push(')') by {}
}

proof fn lemma_restore_binding(
    volume: VolumeEntry,
    free: Seq<char>,
    report: ReportModel,
    letter: char,
    before: Seq<Exchange>,
)
    requires
        entered(volume),
        before.len() > lookups(volume) + 1,
        stored_in(volume, before) is Some,
        before.last().call is QueryDosDevice,
        before.last().reply->Target_0 is None,
        asked(before) == letter,
    ensures
        ({
            let target = device_target(volume.physical_object@, volume.symlink@);
            obeys(
                bind_and_note_script(letter, target, automount_line(letter, target), report),
                before,
                rule_watch(turn_rule(volume, free, report)),
                rule_end(turn_rule(volume, free, report)),
            )
        }),
{
    let target = device_target(volume.physical_object@, volume.symlink@);
    let watch = rule_watch(turn_rule(volume, free, report));
    let end = rule_end(turn_rule(volume, free, report));
    let line = automount_line(letter, target);
    let between = |later: Seq<Exchange>, defined: Result<(), Seq<char>>|
        turn_next(volume, free, report, later) == Step::End(report.noting(defined, line));
    lemma_pushed(target, report);
    assert(seq![letter] + ": (Ext2Fsd automount → "@ + target + seq![')'] == line);
    assert forall|reply: Result<bool, String>| #[trigger]
        crate::mount::define_result(letter, reply) == (if reply is Ok && reply->Ok_0 {
            Ok::<(), Seq<char>>(())
        } else {
            Err(unbound_text(letter, reply))
        }) by {
        lemma_noted(letter, reply);
    }
    assert(obeys(define_temporary_script(letter, target), before, watch, between)) by {
        reveal_with_fuel(obeys, 4);
    }
    lemma_obeys_bind(
        define_temporary_script(letter, target),
        |defined: Result<(), Seq<char>>| Script::Done(report.noting(defined, line)),
        before,
        watch,
        between,
        end,
    );
}

/// What follows once the search for a letter has ended.
spec fn after_choice(
    volume: VolumeEntry,
    free: Seq<char>,
    report: ReportModel,
    preferred: char,
    later: Seq<Exchange>,
    letter: Option<char>,
) -> bool {
    &&& later.len() > lookups(volume)
    &&& stored_in(volume, later) == Some(preferred)
    &&& match letter {
        Some(found) => {
            &&& later.len() > lookups(volume) + 1
            &&& later.last().call is QueryDosDevice
            &&& later.last().reply->Target_0 is None
            &&& asked(later) == found
        },
        None => turn_next(volume, free, report, later) == Step::<ReportModel>::Call(
            CallView::FormatUuid { uuid: volume.uuid->0 },
        ),
    }
}

proof fn lemma_unbound_letter_rule(
    volume: VolumeEntry,
    free: Seq<char>,
    report: ReportModel,
    preferred: char,
    from: nat,
    before: Seq<Exchange>,
)
    requires
        entered(volume),
        from <= free.len(),
        before.len() == lookups(volume) + 1 + from + if free.contains(preferred) {
            1int
        } else {
            0
        },
        stored_in(volume, before) == Some(preferred),
        turn_next(volume, free, report, before) == pick(
            volume,
            free,
            preferred,
            before.len() - lookups(volume) - 1,
        ),
    ensures
        obeys(
            unbound_letter_script(free, from),
            before,
            rule_watch(turn_rule(volume, free, report)),
            |later: Seq<Exchange>, letter: Option<char>|
                after_choice(volume, free, report, preferred, later, letter),
        ),
    decreases free.len() - from,
{
    let watch = rule_watch(turn_rule(volume, free, report));
    let end = |later: Seq<Exchange>, letter: Option<char>|
        after_choice(volume, free, report, preferred, later, letter);
    if from < free.len() {
        let script = unbound_letter_script(free, from);
        let next = script->Ask_1;
        assert(candidates(free, preferred)[before.len() - lookups(volume) - 1]
            == free[from as int]);
        assert forall|reply: Reply| script->Ask_0.fits(reply) implies obeys(
            #[trigger] next(reply),
            (watch.step)(before, script->Ask_0, reply),
            watch,
            end,
        ) by {
            let later = (watch.step)(before, script->Ask_0, reply);
            lemma_pushed(Seq::empty(), report);
            if reply->Target_0 is Some {
                lemma_unbound_letter_rule(volume, free, report, preferred, from + 1, later);
            }
        }
    }
}

proof fn lemma_choose_letter_rule(
    volume: VolumeEntry,
    free: Seq<char>,
    report: ReportModel,
    preferred: char,
    before: Seq<Exchange>,
)
    requires
        entered(volume),
        before.len() == lookups(volume) + 1,
        stored_in(volume, before) == Some(preferred),
        !live_in(volume, before),
    ensures
        obeys(
            choose_letter_script(free, preferred),
            before,
            rule_watch(turn_rule(volume, free, report)),
            |later: Seq<Exchange>, letter: Option<char>|
                after_choice(volume, free, report, preferred, later, letter),
        ),
{
    let watch = rule_watch(turn_rule(volume, free, report));
    let end = |later: Seq<Exchange>, letter: Option<char>|
        after_choice(volume, free, report, preferred, later, letter);
    if free.contains(preferred) {
        let script = choose_letter_script(free, preferred);
        let next = script->Ask_1;
        assert(candidates(free, preferred)[0] == preferred);
        assert forall|reply: Reply| script->Ask_0.fits(reply) implies obeys(
            #[trigger] next(reply),
            (watch.step)(before, script->Ask_0, reply),
            watch,
            end,
        ) by {
            let later = (watch.step)(before, script->Ask_0, reply);
            lemma_pushed(Seq::empty(), report);
            if reply->Target_0 is Some {
                lemma_unbound_letter_rule(volume, free, report, preferred, 0, later);
            }
        }
    } else {
        lemma_unbound_letter_rule(volume, free, report, preferred, 0, before);
    }
}

proof fn lemma_restore_rule(
    volume: VolumeEntry,
    free: Seq<char>,
    report: ReportModel,
    preferred: char,
    before: Seq<Exchange>,
)
    requires
        entered(volume),
        before.len() == lookups(volume) + 1,
        stored_in(volume, before) == Some(preferred),
    ensures
        obeys(
            restore_script(volume, preferred, live_in(volume, before), free, report),
            before,
            rule_watch(turn_rule(volume, free, report)),
            rule_end(turn_rule(volume, free, report)),
        ),
{
    let watch = rule_watch(turn_rule(volume, free, report));
    let end = rule_end(turn_rule(volume, free, report));
    if !live_in(volume, before) {
        let between = |later: Seq<Exchange>, letter: Option<char>|
            after_choice(volume, free, report, preferred, later, letter);
        lemma_choose_letter_rule(volume, free, report, preferred, before);
        assert forall|later: Seq<Exchange>, letter: Option<char>| #[trigger]
            between(later, letter) implies obeys(
            assign_script(volume, letter, report),
            later,
            watch,
            end,
        ) by {
            if letter is Some {
                lemma_restore_binding(volume, free, report, letter->0, later);
            } else {
                reveal_with_fuel(obeys, 2);
            }
        }
        lemma_obeys_bind(
            choose_letter_script(free, preferred),
            |letter: Option<char>| assign_script(volume, letter, report),
            before,
            watch,
            between,
            end,
        );
    }
}

/// The turn of a volume whose letters are those that the registry names.
spec fn in_session(volume: VolumeEntry, letters: Seq<char>, before: Seq<Exchange>) -> bool {
    &&& before.len() > heading(volume)
    &&& stored_in(volume, before) is None
    &&& before[heading(volume)].reply->Letters_0@ == letters
}

/// What follows an attempt to bind a letter that the registry names.
spec fn after_session_binding(
    volume: VolumeEntry,
    free: Seq<char>,
    report: ReportModel,
    letters: Seq<char>,
    k: nat,
    noted: ReportModel,
    later: Seq<Exchange>,
) -> bool {
    let device = device_path(volume.physical_object@, volume.symlink@);
    &&& in_session(volume, letters, later)
    &&& looked_up(later) == k
    &&& tally(device, report, later) == noted
    &&& turn_next(volume, free, report, later) == session_on(device, letters, report, later)
}

proof fn lemma_session_binding(
    volume: VolumeEntry,
    free: Seq<char>,
    report: ReportModel,
    letters: Seq<char>,
    letter: char,
    before: Seq<Exchange>,
)
    requires
        in_session(volume, letters, before),
        before.len() > heading(volume) + 1,
        before.last().call is QueryDosDevice,
        before.last().reply->Target_0 is None,
        asked(before) == letter,
    ensures
        ({
            let device = device_path(volume.physical_object@, volume.symlink@);
            obeys(
                bind_and_note_script(
                    letter,
                    device,
                    session_line(letter, device),
                    tally(device, report, before),
                ),
                before,
                rule_watch(turn_rule(volume, free, report)),
                |later: Seq<Exchange>, noted: ReportModel|
                    after_session_binding(
                        volume,
                        free,
                        report,
                        letters,
                        looked_up(before),
                        noted,
                        later,
                    ),
            )
        }),
{
    let device = device_path(volume.physical_object@, volume.symlink@);
    let watch = rule_watch(turn_rule(volume, free, report));
    let line = session_line(letter, device);
    let current = tally(device, report, before);
    let end = |later: Seq<Exchange>, noted: ReportModel|
        after_session_binding(volume, free, report, letters, looked_up(before), noted, later);
    let between = |later: Seq<Exchange>, defined: Result<(), Seq<char>>|
        after_session_binding(
            volume,
            free,
            report,
            letters,
            looked_up(before),
            current.noting(defined, line),
            later,
        );
    lemma_pushed(device, report);
    assert forall|reply: Result<bool, String>| #[trigger]
        crate::mount::define_result(letter, reply) == (if reply is Ok && reply->Ok_0 {
            Ok::<(), Seq<char>>(())
        } else {
            Err(unbound_text(letter, reply))
        }) by {
        lemma_noted(letter, reply);
    }
    assert(obeys(define_temporary_script(letter, device), before, watch, between)) by {
        reveal_with_fuel(obeys, 4);
    }
    lemma_obeys_bind(
        define_temporary_script(letter, device),
        |defined: Result<(), Seq<char>>| Script::Done(current.noting(defined, line)),
        before,
        watch,
        between,
        end,
    );
}

proof fn lemma_session_letters_rule(
    volume: VolumeEntry,
    free: Seq<char>,
    report: ReportModel,
    letters: Seq<char>,
    from: nat,
    before: Seq<Exchange>,
)
    requires
        in_session(volume, letters, before),
        looked_up(before) == from,
        turn_next(volume, free, report, before) == session_on(
            device_path(volume.physical_object@, volume.symlink@),
            letters,
            report,
            before,
        ),
    ensures
        obeys(
            session_letters_script(
                device_path(volume.physical_object@, volume.symlink@),
                letters,
                from,
                tally(device_path(volume.physical_object@, volume.symlink@), report, before),
            ),
            before,
            rule_watch(turn_rule(volume, free, report)),
            rule_end(turn_rule(volume, free, report)),
        ),
    decreases letters.len() - from,
{
    let device = device_path(volume.physical_object@, volume.symlink@);
    let watch = rule_watch(turn_rule(volume, free, report));
    let end = rule_end(turn_rule(volume, free, report));
    let current = tally(device, report, before);
    if from < letters.len() {
        let letter = letters[from as int];
        let script = session_letters_script(device, letters, from, current);
        let next = script->Ask_1;
        assert forall|reply: Reply| script->Ask_0.fits(reply) implies obeys(
            #[trigger] next(reply),
            (watch.step)(before, script->Ask_0, reply),
            watch,
            end,
        ) by {
            let later = (watch.step)(before, script->Ask_0, reply);
            lemma_pushed(device, report);
            if reply->Target_0 is Some {
                lemma_session_letters_rule(volume, free, report, letters, from + 1, later);
            } else {
                let line = session_line(letter, device);
                let between = |after: Seq<Exchange>, noted: ReportModel|
                    after_session_binding(
                        volume,
                        free,
                        report,
                        letters,
                        looked_up(later),
                        noted,
                        after,
                    );
                lemma_session_binding(volume, free, report, letters, letter, later);
                assert forall|after: Seq<Exchange>, noted: ReportModel| #[trigger]
                    between(after, noted) implies obeys(
                    session_letters_script(device, letters, from + 1, noted),
                    after,
                    watch,
                    end,
                ) by {
                    lemma_session_letters_rule(volume, free, report, letters, from + 1, after);
                }
                lemma_obeys_bind_any(
                    bind_and_note_script(letter, device, line, current),
                    later,
                    watch,
                    between,
                    end,
                );
            }
        }
    }
}

proof fn lemma_session_rule(
    volume: VolumeEntry,
    free: Seq<char>,
    report: ReportModel,
    before: Seq<Exchange>,
)
    requires
        before.len() == heading(volume),
        stored_in(volume, before) is None,
        looked_up(before) == 0,
        tally(device_path(volume.physical_object@, volume.symlink@), report, before) == report,
    ensures
        obeys(
            session_script(volume, live_in(volume, before), report),
            before,
            rule_watch(turn_rule(volume, free, report)),
            rule_end(turn_rule(volume, free, report)),
        ),
{
    let watch = rule_watch(turn_rule(volume, free, report));
    let end = rule_end(turn_rule(volume, free, report));
    let device = device_path(volume.physical_object@, volume.symlink@);
    if device.len() > 0 {
        let script = session_script(volume, live_in(volume, before), report);
        let next = script->Ask_1;
        assert forall|reply: Reply| script->Ask_0.fits(reply) implies obeys(
            #[trigger] next(reply),
            (watch.step)(before, script->Ask_0, reply),
            watch,
            end,
        ) by {
            let later = (watch.step)(before, script->Ask_0, reply);
            lemma_pushed(device, report);
            if reply->Letters_0@.len() > 0 && !live_in(volume, before) {
                lemma_session_letters_rule(volume, free, report, reply->Letters_0@, 0, later);
            }
        }
    }
}

proof fn lemma_known_volume_rule(
    volume: VolumeEntry,
    free: Seq<char>,
    report: ReportModel,
    before: Seq<Exchange>,
)
    requires
        before.len() == lookups(volume),
        looked_up(before) == 0,
        tally(device_path(volume.physical_object@, volume.symlink@), report, before) == report,
    ensures
        obeys(
            known_volume_script(volume, live_in(volume, before), free, report),
            before,
            rule_watch(turn_rule(volume, free, report)),
            rule_end(turn_rule(volume, free, report)),
        ),
{
    let watch = rule_watch(turn_rule(volume, free, report));
    let end = rule_end(turn_rule(volume, free, report));
    let device = device_path(volume.physical_object@, volume.symlink@);
    let live = live_in(volume, before);
    let between = |later: Seq<Exchange>, stored: Option<char>|
        {
            &&& later.len() == heading(volume)
            &&& stored_in(volume, later) == stored
            &&& live_in(volume, later) == live
            &&& looked_up(later) == 0
            &&& tally(device, report, later) == report
        };
    lemma_pushed(device, report);
    law_ext_family_by_its_characters(volume.filesystem@);
    assert(obeys(stored_letter_script(volume), before, watch, between)) by {
        reveal_with_fuel(obeys, 2);
    }
    assert forall|later: Seq<Exchange>, stored: Option<char>| #[trigger]
        between(later, stored) implies obeys(
        settle_script(volume, live, stored, free, report),
        later,
        watch,
        end,
    ) by {
        if stored is Some {
            lemma_restore_rule(volume, free, report, stored->0, later);
        } else {
            lemma_session_rule(volume, free, report, later);
        }
    }
    lemma_obeys_bind(
        stored_letter_script(volume),
        |stored: Option<char>| settle_script(volume, live, stored, free, report),
        before,
        watch,
        between,
        end,
    );
}

proof fn lemma_turn_rule(volume: VolumeEntry, free: Seq<char>, report: ReportModel)
    ensures
        obeys(
            volume_script(volume, free, report),
            Seq::<Exchange>::empty(),
            rule_watch(turn_rule(volume, free, report)),
            rule_end(turn_rule(volume, free, report)),
        ),
{
    let start = Seq::<Exchange>::empty();
    let watch = rule_watch(turn_rule(volume, free, report));
    let end = rule_end(turn_rule(volume, free, report));
    let device = device_path(volume.physical_object@, volume.symlink@);
    let between = |later: Seq<Exchange>, live: bool|
        {
            &&& later.len() == lookups(volume)
            &&& live_in(volume, later) == live
            &&& looked_up(later) == 0
            &&& tally(device, report, later) == report
        };
    lemma_pushed(device, report);
    assert(obeys(live_script(volume), start, watch, between)) by {
        reveal_with_fuel(obeys, 2);
    }
    assert forall|later: Seq<Exchange>, live: bool| #[trigger] between(later, live) implies obeys(
        known_volume_script(volume, live, free, report),
        later,
        watch,
        end,
    ) by {
        lemma_known_volume_rule(volume, free, report, later);
    }
    lemma_obeys_bind(
        live_script(volume),
        |live: bool| known_volume_script(volume, live, free, report),
        start,
        watch,
        between,
        end,
    );
}

proof fn lemma_turn_step(
    volume: VolumeEntry,
    free: Seq<char>,
    report: ReportModel,
    replies: Seq<Reply>,
    at: nat,
    count: int,
)
    requires
        count == 0 || answered(volume_script(volume, free, report), replies, at, count - 1),
    ensures
        step_after(volume_script(volume, free, report), replies, at, count) == turn_next(
            volume,
            free,
            report,
            past(volume_script(volume, free, report), replies, at, count),
        ),
{
    lemma_turn_rule(volume, free, report);
    lemma_rule(
        volume_script(volume, free, report),
        turn_rule(volume, free, report),
        replies,
        at,
        count,
    );
}

/// A volume without letters of its own but with a name is looked up in the Mount Manager first, by
/// that name. No other volume is.
pub proof fn law_a_turn_begins_with_the_mount_manager(
    volume: VolumeEntry,
    free: Seq<char>,
    report: ReportModel,
    replies: Seq<Reply>,
    at: nat,
)
    ensures
        volume.letters@.len() == 0 && volume.win32_volume_name@.len() > 0
            ==> step_after(volume_script(volume, free, report), replies, at, 0)
            == Step::<ReportModel>::Call(
            CallView::MountManagerLetters { volume_name: volume.win32_volume_name@ },
        ),
        volume.letters@.len() > 0 || volume.win32_volume_name@.len() == 0
            ==> !(step_after(volume_script(volume, free, report), replies, at, 0)
            matches Step::Call(call) && call is MountManagerLetters),
{
    lemma_turn_step(volume, free, report, replies, at, 0);
}

/// Next, the automount entry of every EXT volume with a UUID is looked up, by that UUID, whether
/// the volume is live or not and whatever the report holds by then.
pub proof fn law_the_automount_entry_is_looked_up(
    volume: VolumeEntry,
    free: Seq<char>,
    report: ReportModel,
    replies: Seq<Reply>,
    at: nat,
)
    requires
        entered(volume),
        lookups(volume) == 0
            || answered(volume_script(volume, free, report), replies, at, lookups(volume) - 1),
    ensures
        step_after(volume_script(volume, free, report), replies, at, lookups(volume))
            == Step::<ReportModel>::Call(CallView::AutomountLetter { uuid: volume.uuid->0 }),
{
    lemma_turn_step(volume, free, report, replies, at, lookups(volume));
}

/// A volume without an automount entry is looked up in the registry, by its physical object where
/// that is a device path, else by its link where that is one. One with no device path is done with,
/// and the report stays as it is.
pub proof fn law_the_registry_is_looked_up(
    volume: VolumeEntry,
    free: Seq<char>,
    report: ReportModel,
    replies: Seq<Reply>,
    at: nat,
)
    requires
        heading(volume) == 0
            || answered(volume_script(volume, free, report), replies, at, heading(volume) - 1),
        entered(volume) ==> replies[at + heading(volume) - 1] == Reply::Letter(None),
    ensures
        under_device(volume.physical_object@)
            ==> step_after(volume_script(volume, free, report), replies, at, heading(volume))
            == Step::<ReportModel>::Call(
            CallView::RegistryLetters { device: volume.physical_object@ },
        ),
        !under_device(volume.physical_object@) && under_device(volume.symlink@)
            ==> step_after(volume_script(volume, free, report), replies, at, heading(volume))
            == Step::<ReportModel>::Call(CallView::RegistryLetters { device: volume.symlink@ }),
        !under_device(volume.physical_object@) && !under_device(volume.symlink@)
            ==> step_after(volume_script(volume, free, report), replies, at, heading(volume))
            == Step::<ReportModel>::End(report),
{
    lemma_turn_step(volume, free, report, replies, at, heading(volume));
    lemma_paths(volume);
    if entered(volume) {
        assert(past(volume_script(volume, free, report), replies, at,
            heading(volume))[lookups(volume)].reply == replies[at
            + heading(volume) - 1]);
    }
}

proof fn lemma_paths(volume: VolumeEntry)
    ensures
        under_device(volume.physical_object@) ==> device_path(
            volume.physical_object@,
            volume.symlink@,
        ) == volume.physical_object@ && device_target(volume.physical_object@, volume.symlink@)
            == volume.physical_object@,
        !under_device(volume.physical_object@) && under_device(volume.symlink@) ==> device_path(
            volume.physical_object@,
            volume.symlink@,
        ) == volume.symlink@ && device_target(volume.physical_object@, volume.symlink@)
            == volume.symlink@,
        !under_device(volume.physical_object@) && !under_device(volume.symlink@) ==> device_path(
            volume.physical_object@,
            volume.symlink@,
        ).len() == 0
            && device_target(volume.physical_object@, volume.symlink@)
            == if volume.physical_object@.len() > 0 {
            volume.physical_object@
        } else {
            volume.symlink@
        },
{
    law_which_path_is_the_target(volume.physical_object@, volume.symlink@);
}

/// Whether the volume is live is what its letters and the Mount Manager say of it.
proof fn lemma_live(
    volume: VolumeEntry,
    free: Seq<char>,
    report: ReportModel,
    replies: Seq<Reply>,
    at: nat,
    count: int,
)
    requires
        count >= lookups(volume),
        count == 0 || answered(volume_script(volume, free, report), replies, at, count - 1),
    ensures
        live_in(volume, past(volume_script(volume, free, report), replies, at, count))
            == is_live(volume, replies, at),
{
    if lookups(volume) == 1 {
        lemma_answered(volume_script(volume, free, report), replies, at, count - 1);
        assert(answered(volume_script(volume, free, report), replies, at, 0));
        law_a_turn_begins_with_the_mount_manager(volume, free, report, replies, at);
        assert(past(volume_script(volume, free, report), replies, at, count)[0].reply
            == replies[at as int]);
    }
}

/// Where a turn has got past the question to the Mount Manager, its answer says whether the volume
/// is live.
proof fn lemma_live_now(
    volume: VolumeEntry,
    free: Seq<char>,
    report: ReportModel,
    replies: Seq<Reply>,
    at: nat,
    i: int,
)
    requires
        answered(volume_script(volume, free, report), replies, at, i),
        i >= lookups(volume),
    ensures
        is_live(volume, replies, at)
            <==> (volume.letters@.len() > 0 || (volume.win32_volume_name@.len() > 0
            && replies[at as int]->Letters_0@.len() > 0)),
{
    if lookups(volume) == 1 {
        lemma_answered(volume_script(volume, free, report), replies, at, i);
        assert(answered(volume_script(volume, free, report), replies, at, 0));
        law_a_turn_begins_with_the_mount_manager(volume, free, report, replies, at);
    }
}

/// A live volume with a letter in its automount entry is left as it is: the turn ends, and the
/// report counts one letter more that was skipped.
pub proof fn law_a_live_volume_with_an_entry_is_skipped(
    volume: VolumeEntry,
    free: Seq<char>,
    report: ReportModel,
    replies: Seq<Reply>,
    at: nat,
)
    requires
        entered(volume),
        answered(volume_script(volume, free, report), replies, at, lookups(volume)),
        replies[at + lookups(volume)]->Letter_0 is Some,
        volume.letters@.len() > 0 || (volume.win32_volume_name@.len() > 0
            && replies[at as int]->Letters_0@.len() > 0),
    ensures
        step_after(volume_script(volume, free, report), replies, at, lookups(volume) + 1)
            == Step::<ReportModel>::End(
            ReportModel {
                mounted: report.mounted,
                already_mounted: report.already_mounted + 1,
                errors: report.errors,
            },
        ),
{
    lemma_live_now(volume, free, report, replies, at, lookups(volume));
    lemma_turn_step(volume, free, report, replies, at, lookups(volume) + 1);
    lemma_live(volume, free, report, replies, at, lookups(volume) + 1);
}

/// Which letters are looked up for a volume with an automount entry that is not live: the letter in
/// the entry where it is free, and then the free letters in their order, each only after the ones
/// before it were found to be bound. Only where all of them are bound does the pass give up on the
/// volume, and asks for the text of its UUID.
pub proof fn law_the_stored_letter_first_and_then_the_free_ones(
    volume: VolumeEntry,
    free: Seq<char>,
    report: ReportModel,
    replies: Seq<Reply>,
    at: nat,
    k: int,
)
    requires
        entered(volume),
        k >= 0,
        answered(volume_script(volume, free, report), replies, at, lookups(volume) + k),
        replies[at + lookups(volume)]->Letter_0 is Some,
        !(volume.letters@.len() > 0 || (volume.win32_volume_name@.len() > 0
            && replies[at as int]->Letters_0@.len() > 0)),
        k > 0 ==> calls(volume_script(volume, free, report), replies,
            at)[lookups(volume) + k] is QueryDosDevice && replies[at
            + lookups(volume) + k]->Target_0 is Some,
    ensures
        ({
            let stored = replies[at + lookups(volume)]->Letter_0->0;
            let wanted = if free.contains(stored) {
                seq![stored] + free
            } else {
                free
            };
            &&& k < wanted.len()
                ==> step_after(volume_script(volume, free, report), replies, at,
                lookups(volume) + k + 1)
                    == Step::<ReportModel>::Call(CallView::QueryDosDevice { letter: wanted[k] })
            &&& k >= wanted.len()
                ==> step_after(volume_script(volume, free, report), replies, at,
                lookups(volume) + k + 1)
                    == Step::<ReportModel>::Call(CallView::FormatUuid { uuid: volume.uuid->0 })
        }),
{
    let count = lookups(volume) + k + 1;
    lemma_live_now(volume, free, report, replies, at, lookups(volume) + k);
    lemma_turn_step(volume, free, report, replies, at, count);
    lemma_live(volume, free, report, replies, at, count);
    lemma_entry(volume, free, report, replies, at, count);
}

/// The letter in the automount entry is what the call for it was answered.
proof fn lemma_entry(
    volume: VolumeEntry,
    free: Seq<char>,
    report: ReportModel,
    replies: Seq<Reply>,
    at: nat,
    count: int,
)
    requires
        entered(volume),
        count > lookups(volume),
    ensures
        stored_in(volume, past(volume_script(volume, free, report), replies, at, count))
            == replies[at + lookups(volume)]->Letter_0,
{
}

/// A volume for which every free letter is bound is noted as an error, by the text of its UUID.
pub proof fn law_no_free_letter_is_an_error(
    volume: VolumeEntry,
    free: Seq<char>,
    report: ReportModel,
    replies: Seq<Reply>,
    at: nat,
    i: int,
)
    requires
        answered(volume_script(volume, free, report), replies, at, i),
        calls(volume_script(volume, free, report), replies, at)[i] is FormatUuid,
    ensures
        step_after(volume_script(volume, free, report), replies, at, i + 1)
            == Step::<ReportModel>::End(
            ReportModel {
                mounted: report.mounted,
                already_mounted: report.already_mounted,
                errors: report.errors.push(
                    replies[at + i]->Text_0@ + ": no free letter for Ext2Fsd automount"@,
                ),
            },
        ),
{
    lemma_answered(volume_script(volume, free, report), replies, at, i);
    lemma_kinds(volume, free, report, replies, at, i);
    lemma_late(volume, free, report, replies, at, i);
    lemma_turn_step(volume, free, report, replies, at, i + 1);
    lemma_entry(volume, free, report, replies, at, i + 1);
}

/// Whether the call looks a letter up, binds one, or gives up on it.
spec fn is_late(call: CallView) -> bool {
    ||| call is QueryDosDevice
    ||| call is IsProcessElevated
    ||| call is DefineLocal
    ||| call is ServiceDefine
    ||| call is FormatUuid
}

/// Behind the lookups of a turn stand only calls that look letters up, bind them or give up on
/// them, and only for a volume that is not live.
proof fn lemma_late(
    volume: VolumeEntry,
    free: Seq<char>,
    report: ReportModel,
    replies: Seq<Reply>,
    at: nat,
    i: int,
)
    requires
        0 <= i < calls(volume_script(volume, free, report), replies, at).len(),
        i > 0 ==> answered(volume_script(volume, free, report), replies, at, i - 1),
        i > lookups(volume),
        entered(volume) && replies[at + lookups(volume)]->Letter_0 is Some || i > heading(volume),
    ensures
        is_late(calls(volume_script(volume, free, report), replies, at)[i]),
        !is_live(volume, replies, at),
        calls(volume_script(volume, free, report), replies, at)[i] is IsProcessElevated
            ==> calls(volume_script(volume, free, report), replies, at)[i - 1] is QueryDosDevice
            && replies[at + i - 1]->Target_0 is None,
        calls(volume_script(volume, free, report), replies, at)[i] is DefineLocal
            ==> calls(volume_script(volume, free, report), replies,
            at)[i - 1] is IsProcessElevated && replies[at + i - 1]->Flag_0,
        calls(volume_script(volume, free, report), replies, at)[i] is ServiceDefine
            ==> (calls(volume_script(volume, free, report), replies,
            at)[i - 1] is IsProcessElevated
                || calls(volume_script(volume, free, report), replies,
                at)[i - 1] is DefineLocal) && !replies[at + i - 1]->Flag_0,
        calls(volume_script(volume, free, report), replies, at)[i] is FormatUuid
            ==> entered(volume) && replies[at + lookups(volume)]->Letter_0 is Some,
    decreases i,
{
    let stored = entered(volume) && replies[at + lookups(volume)]->Letter_0 is Some;
    lemma_turn_step(volume, free, report, replies, at, i);
    lemma_live(volume, free, report, replies, at, i);
    if entered(volume) {
        lemma_entry(volume, free, report, replies, at, i);
    }
    if i > 1 {
        lemma_answered(volume_script(volume, free, report), replies, at, i - 1);
        assert(answered(volume_script(volume, free, report), replies, at, i - 2));
    }
    if i > lookups(volume) + 1 && (stored || i > heading(volume) + 1) {
        lemma_late(volume, free, report, replies, at, i - 1);
        assert(past(volume_script(volume, free, report), replies, at, i).last().call
            == calls(volume_script(volume, free, report), replies, at)[i - 1]);
    }
}

/// Where the calls that look letters up, bind them or give up on them stand in a turn.
proof fn lemma_kinds(
    volume: VolumeEntry,
    free: Seq<char>,
    report: ReportModel,
    replies: Seq<Reply>,
    at: nat,
    i: int,
)
    requires
        0 <= i < calls(volume_script(volume, free, report), replies, at).len(),
        i > 0 ==> answered(volume_script(volume, free, report), replies, at, i - 1),
        is_late(calls(volume_script(volume, free, report), replies, at)[i]),
    ensures
        i > lookups(volume),
        entered(volume) && replies[at + lookups(volume)]->Letter_0 is Some || i > heading(volume),
{
    lemma_turn_step(volume, free, report, replies, at, i);
    if entered(volume) && i > lookups(volume) {
        lemma_entry(volume, free, report, replies, at, i);
    }
}

/// One call more.
proof fn lemma_longer_past(
    volume: VolumeEntry,
    free: Seq<char>,
    report: ReportModel,
    replies: Seq<Reply>,
    at: nat,
    count: int,
)
    requires
        count >= 0,
    ensures
        past(volume_script(volume, free, report), replies, at, count + 1)
            == past(volume_script(volume, free, report), replies, at, count).push(
            Exchange { call: calls(volume_script(volume, free, report), replies, at)[count],
                reply: replies[at + count] },
        ),
{
}

/// The letter that was looked up last, from a lookup on until it is bound.
proof fn lemma_asked(
    volume: VolumeEntry,
    free: Seq<char>,
    report: ReportModel,
    replies: Seq<Reply>,
    at: nat,
    i: int,
)
    requires
        0 <= i,
        calls(volume_script(volume, free, report), replies, at)[i] is QueryDosDevice,
    ensures
        asked(past(volume_script(volume, free, report), replies, at, i + 1))
            == calls(volume_script(volume, free, report), replies, at)[i]->QueryDosDevice_letter,
        !(calls(volume_script(volume, free, report), replies, at)[i + 1] is QueryDosDevice)
            ==> asked(past(volume_script(volume, free, report), replies, at, i + 2))
            == calls(volume_script(volume, free, report), replies, at)[i]->QueryDosDevice_letter,
        !(calls(volume_script(volume, free, report), replies, at)[i + 1] is QueryDosDevice)
            && !(calls(volume_script(volume, free, report), replies,
            at)[i + 2] is QueryDosDevice) ==> asked(
            past(volume_script(volume, free, report), replies, at, i + 3),
        ) == calls(volume_script(volume, free, report), replies, at)[i]->QueryDosDevice_letter,
        !(calls(volume_script(volume, free, report), replies, at)[i + 1] is QueryDosDevice)
            && !(calls(volume_script(volume, free, report), replies,
            at)[i + 2] is QueryDosDevice)
                && !(calls(volume_script(volume, free, report), replies,
                at)[i + 3] is QueryDosDevice) ==> asked(
            past(volume_script(volume, free, report), replies, at, i + 4),
        ) == calls(volume_script(volume, free, report), replies, at)[i]->QueryDosDevice_letter,
{
    lemma_pushed(Seq::empty(), report);
    lemma_longer_past(volume, free, report, replies, at, i);
    lemma_longer_past(volume, free, report, replies, at, i + 1);
    lemma_longer_past(volume, free, report, replies, at, i + 2);
    lemma_longer_past(volume, free, report, replies, at, i + 3);
}

/// The path that the letters of a volume are bound to.
pub open spec fn bound_to(volume: VolumeEntry) -> Seq<char> {
    if under_device(volume.physical_object@) {
        volume.physical_object@
    } else if under_device(volume.symlink@) {
        volume.symlink@
    } else if volume.physical_object@.len() > 0 {
        volume.physical_object@
    } else {
        volume.symlink@
    }
}

/// The registry is asked only of a volume with a device path.
proof fn lemma_registry_asked(
    volume: VolumeEntry,
    free: Seq<char>,
    report: ReportModel,
    replies: Seq<Reply>,
    at: nat,
    i: int,
)
    requires
        heading(volume) < i,
        i <= calls(volume_script(volume, free, report), replies, at).len(),
        answered(volume_script(volume, free, report), replies, at, i - 1),
        !(entered(volume) && replies[at + lookups(volume)]->Letter_0 is Some),
    ensures
        calls(volume_script(volume, free, report), replies, at)[heading(volume)] is RegistryLetters,
        device_path(volume.physical_object@, volume.symlink@) == bound_to(volume),
        bound_to(volume).len() > 0,
        answered(volume_script(volume, free, report), replies, at, heading(volume)),
{
    lemma_answered(volume_script(volume, free, report), replies, at, i - 1);
    assert(answered(volume_script(volume, free, report), replies, at, heading(volume)));
    if heading(volume) > 0 {
        assert(answered(volume_script(volume, free, report), replies, at, heading(volume) - 1));
    }
    lemma_turn_step(volume, free, report, replies, at, heading(volume));
    if entered(volume) {
        lemma_entry(volume, free, report, replies, at, heading(volume));
    }
    lemma_paths(volume);
}

/// A letter that was looked up and found not to be bound is bound to the device of the volume at
/// once, whether it came from an automount entry or from the registry: from this process where it
/// is elevated, else, or where that fails, by the drive service.
pub proof fn law_a_letter_found_unbound_is_bound(
    volume: VolumeEntry,
    free: Seq<char>,
    report: ReportModel,
    replies: Seq<Reply>,
    at: nat,
    i: int,
)
    requires
        answered(volume_script(volume, free, report), replies, at, i),
        calls(volume_script(volume, free, report), replies, at)[i] is QueryDosDevice,
        replies[at + i]->Target_0 is None,
    ensures
        ({
            let letter = calls(volume_script(volume, free, report), replies,
                at)[i]->QueryDosDevice_letter;
            let service = Step::<ReportModel>::Call(
                CallView::ServiceDefine { drive: letter as u8, target: bound_to(volume) },
            );
            &&& step_after(volume_script(volume, free, report), replies, at, i + 1)
                == Step::<ReportModel>::Call(CallView::IsProcessElevated)
            &&& answered(volume_script(volume, free, report), replies, at, i + 1)
                && replies[at + i + 1]->Flag_0
                ==> step_after(volume_script(volume, free, report), replies, at, i + 2)
                == Step::<ReportModel>::Call(
                CallView::DefineLocal { letter, target: bound_to(volume) },
            )
            &&& answered(volume_script(volume, free, report), replies, at, i + 1)
                && !replies[at + i + 1]->Flag_0
                ==> step_after(volume_script(volume, free, report), replies, at, i + 2) == service
            &&& answered(volume_script(volume, free, report), replies, at, i + 2)
                && replies[at + i + 1]->Flag_0 && !replies[at + i + 2]->Flag_0
                ==> step_after(volume_script(volume, free, report), replies, at, i + 3) == service
        }),
{
    let script = volume_script(volume, free, report);
    lemma_answered(script, replies, at, i);
    lemma_kinds(volume, free, report, replies, at, i);
    lemma_asked(volume, free, report, replies, at, i);
    lemma_paths(volume);
    let stored = entered(volume) && replies[at + lookups(volume)]->Letter_0 is Some;
    if !stored {
        lemma_registry_asked(volume, free, report, replies, at, i + 1);
    }
    lemma_turn_step(volume, free, report, replies, at, i + 1);
    if entered(volume) {
        lemma_entry(volume, free, report, replies, at, i + 1);
        lemma_entry(volume, free, report, replies, at, i + 2);
        lemma_entry(volume, free, report, replies, at, i + 3);
    }
    if answered(script, replies, at, i + 2) {
        lemma_answered(script, replies, at, i + 2);
        assert(answered(script, replies, at, i + 1));
    }
    if answered(script, replies, at, i + 1) {
        lemma_turn_step(volume, free, report, replies, at, i + 2);
    }
    if answered(script, replies, at, i + 2) {
        lemma_turn_step(volume, free, report, replies, at, i + 3);
    }
}

/// What becomes of the letter that is bound for a volume with an automount entry: the turn ends,
/// and the report holds one line more, which names the letter and what it is bound to, exactly
/// where the letter was bound; else it holds one error more.
pub proof fn law_a_restored_letter_is_noted(
    volume: VolumeEntry,
    free: Seq<char>,
    report: ReportModel,
    replies: Seq<Reply>,
    at: nat,
    i: int,
)
    requires
        entered(volume),
        replies[at + lookups(volume)]->Letter_0 is Some,
        answered(volume_script(volume, free, report), replies, at, i),
        calls(volume_script(volume, free, report), replies, at)[i] is QueryDosDevice,
        replies[at + i]->Target_0 is None,
    ensures
        ({
            let letter = calls(volume_script(volume, free, report), replies,
                at)[i]->QueryDosDevice_letter;
            let mounted = Step::<ReportModel>::End(
                ReportModel {
                    mounted: report.mounted.push(
                        seq![letter] + ": (Ext2Fsd automount → "@ + bound_to(volume) + seq![')'],
                    ),
                    already_mounted: report.already_mounted,
                    errors: report.errors,
                },
            );
            let failed = |reply: Result<bool, String>|
                Step::<ReportModel>::End(
                    ReportModel {
                        mounted: report.mounted,
                        already_mounted: report.already_mounted,
                        errors: report.errors.push(unbound_text(letter, reply)),
                    },
                );
            &&& answered(volume_script(volume, free, report), replies, at, i + 2)
                && replies[at + i + 1]->Flag_0 && replies[at + i + 2]->Flag_0
                ==> step_after(volume_script(volume, free, report), replies, at, i + 3) == mounted
            &&& answered(volume_script(volume, free, report), replies, at, i + 2)
                && !replies[at + i + 1]->Flag_0
                ==> step_after(volume_script(volume, free, report), replies, at, i + 3)
                == if replies[at
                + i + 2]->Service_0 == Ok::<bool, String>(true) {
                mounted
            } else {
                failed(replies[at + i + 2]->Service_0)
            }
            &&& answered(volume_script(volume, free, report), replies, at, i + 3)
                && replies[at + i + 1]->Flag_0 && !replies[at + i + 2]->Flag_0
                ==> step_after(volume_script(volume, free, report), replies, at, i + 4)
                == if replies[at + i + 3]->Service_0 == Ok::<bool, String>(true) {
                mounted
            } else {
                failed(replies[at + i + 3]->Service_0)
            }
        }),
{
    let script = volume_script(volume, free, report);
    law_a_letter_found_unbound_is_bound(volume, free, report, replies, at, i);
    lemma_answered(script, replies, at, i);
    lemma_kinds(volume, free, report, replies, at, i);
    lemma_asked(volume, free, report, replies, at, i);
    lemma_paths(volume);
    lemma_entry(volume, free, report, replies, at, i + 3);
    lemma_entry(volume, free, report, replies, at, i + 4);
    if answered(script, replies, at, i + 3) {
        lemma_answered(script, replies, at, i + 3);
        assert(answered(script, replies, at, i + 1));
        assert(answered(script, replies, at, i + 2));
        lemma_turn_step(volume, free, report, replies, at, i + 4);
    }
    if answered(script, replies, at, i + 2) {
        lemma_answered(script, replies, at, i + 2);
        assert(answered(script, replies, at, i + 1));
        lemma_turn_step(volume, free, report, replies, at, i + 3);
    }
}

/// What the registry says of a volume without an automount entry: where it names no letter, the
/// turn ends and the report stays as it is; where it names one and the volume is live, the turn
/// ends with one letter more that was skipped; else the first letter that it names is looked up.
pub proof fn law_what_the_registry_says(
    volume: VolumeEntry,
    free: Seq<char>,
    report: ReportModel,
    replies: Seq<Reply>,
    at: nat,
)
    requires
        entered(volume) ==> replies[at + lookups(volume)] == Reply::Letter(None),
        answered(volume_script(volume, free, report), replies, at, heading(volume)),
    ensures
        ({
            let letters = replies[at + heading(volume)]->Letters_0@;
            &&& letters.len() == 0
                ==> step_after(volume_script(volume, free, report), replies, at,
                heading(volume) + 1) == Step::<ReportModel>::End(report)
            &&& letters.len() > 0 && (volume.letters@.len() > 0
                || (volume.win32_volume_name@.len() > 0
            && replies[at as int]->Letters_0@.len() > 0))
            ==> step_after(volume_script(volume, free, report), replies, at,
            heading(volume) + 1) == Step::<ReportModel>::End(
                ReportModel {
                    mounted: report.mounted,
                    already_mounted: report.already_mounted + 1,
                    errors: report.errors,
                },
            )
            &&& letters.len() > 0 && !(volume.letters@.len() > 0
                || (volume.win32_volume_name@.len() > 0
            && replies[at as int]->Letters_0@.len() > 0))
            ==> step_after(volume_script(volume, free, report), replies, at,
            heading(volume) + 1)
                == Step::<ReportModel>::Call(CallView::QueryDosDevice { letter: letters[0] })
        }),
{
    lemma_live_now(volume, free, report, replies, at, heading(volume));
    lemma_turn_step(volume, free, report, replies, at, heading(volume) + 1);
    lemma_live(volume, free, report, replies, at, heading(volume) + 1);
    if entered(volume) {
        lemma_entry(volume, free, report, replies, at, heading(volume) + 1);
    }
}

/// Every letter that the registry names has its turn, in the order of the registry: once one is
/// found to be bound, or an attempt to bind it is over, the next one is looked up. Only after the
/// last one does the turn of the volume end, and the report then holds what became of each: one
/// more skipped for a letter that was bound already, a line for one that was bound, an error for
/// one that could not be.
pub proof fn law_every_letter_of_the_registry_has_its_turn(
    volume: VolumeEntry,
    free: Seq<char>,
    report: ReportModel,
    replies: Seq<Reply>,
    at: nat,
    i: int,
)
    requires
        entered(volume) ==> replies[at + lookups(volume)] == Reply::Letter(None),
        answered(volume_script(volume, free, report), replies, at, i),
        ({
            let call = calls(volume_script(volume, free, report), replies, at)[i];
            ||| call is QueryDosDevice && replies[at + i]->Target_0 is Some
            ||| call is DefineLocal && replies[at + i]->Flag_0
            ||| call is ServiceDefine
        }),
    ensures
        ({
            let letters = replies[at + heading(volume)]->Letters_0@;
            let earlier = looked_up(past(volume_script(volume, free, report), replies, at, i + 1));
            &&& earlier < letters.len()
                ==> step_after(volume_script(volume, free, report), replies, at, i + 1)
                == Step::<ReportModel>::Call(
                CallView::QueryDosDevice { letter: letters[earlier as int] },
            )
            &&& earlier >= letters.len()
                ==> step_after(volume_script(volume, free, report), replies, at, i + 1)
                == Step::<ReportModel>::End(
                tally(bound_to(volume), report, past(volume_script(volume, free, report), replies,
                    at, i + 1)),
            )
        }),
{
    lemma_answered(volume_script(volume, free, report), replies, at, i);
    lemma_kinds(volume, free, report, replies, at, i);
    if entered(volume) {
        lemma_entry(volume, free, report, replies, at, i + 1);
    }
    lemma_registry_asked(volume, free, report, replies, at, i + 1);
    lemma_turn_step(volume, free, report, replies, at, i + 1);
}

/// In the search for a letter every lookup before the present one has found its letter bound.
proof fn lemma_search(
    volume: VolumeEntry,
    free: Seq<char>,
    report: ReportModel,
    replies: Seq<Reply>,
    at: nat,
    j: int,
)
    requires
        entered(volume),
        replies[at + lookups(volume)]->Letter_0 is Some,
        lookups(volume) < j < calls(volume_script(volume, free, report), replies, at).len(),
        answered(volume_script(volume, free, report), replies, at, j - 1),
        calls(volume_script(volume, free, report), replies, at)[j] is QueryDosDevice
            || calls(volume_script(volume, free, report), replies, at)[j] is FormatUuid,
    ensures
        forall|x: int|
            lookups(volume) < x < j
                ==> #[trigger] calls(volume_script(volume, free, report), replies,
                at)[x] is QueryDosDevice && replies[at
                + x]->Target_0 is Some,
    decreases j,
{
    lemma_turn_step(volume, free, report, replies, at, j);
    lemma_entry(volume, free, report, replies, at, j);
    if j > lookups(volume) + 1 {
        assert(past(volume_script(volume, free, report), replies, at, j).last().call
            == calls(volume_script(volume, free, report), replies, at)[j - 1]);
        assert(calls(volume_script(volume, free, report), replies, at)[j - 1] is QueryDosDevice
            && replies[at + j - 1]->Target_0 is Some);
        lemma_answered(volume_script(volume, free, report), replies, at, j - 1);
        assert(answered(volume_script(volume, free, report), replies, at, j - 2));
        lemma_search(volume, free, report, replies, at, j - 1);
    }
}

/// A pass gives up on a volume with an automount entry only after it has looked up every one of the
/// free letters, in the turn of that volume, and has found each of them bound.
pub proof fn law_giving_up_means_that_every_free_letter_is_bound(
    volume: VolumeEntry,
    free: Seq<char>,
    report: ReportModel,
    replies: Seq<Reply>,
    at: nat,
    j: int,
    letter: char,
)
    requires
        0 <= j < calls(volume_script(volume, free, report), replies, at).len(),
        j > 0 ==> answered(volume_script(volume, free, report), replies, at, j - 1),
        calls(volume_script(volume, free, report), replies, at)[j] is FormatUuid,
        free.contains(letter),
    ensures
        exists|x: int|
            0 <= x < j
                && #[trigger] calls(volume_script(volume, free, report), replies, at)[x]
                == (CallView::QueryDosDevice { letter }) && replies[at
                + x]->Target_0 is Some,
{
    let script = volume_script(volume, free, report);
    lemma_kinds(volume, free, report, replies, at, j);
    lemma_late(volume, free, report, replies, at, j);
    lemma_search(volume, free, report, replies, at, j);
    let first = lookups(volume);
    let stored = replies[at + first]->Letter_0->0;
    let wanted = if free.contains(stored) {
        seq![stored] + free
    } else {
        free
    };
    let m = choose|m: int| 0 <= m < free.len() && free[m] == letter;
    let k = if free.contains(stored) {
        m + 1
    } else {
        m
    };
    assert(wanted[k] == letter);
    lemma_answered(script, replies, at, j - 1);
    assert(answered(script, replies, at, first));
    lemma_live_now(volume, free, report, replies, at, first);
    if first + k + 1 >= j {
        let given = j - first - 1;
        assert(answered(script, replies, at, first + given));
        if given > 0 {
            assert(calls(volume_script(volume, free, report), replies,
                at)[first + given] is QueryDosDevice);
        }
        law_the_stored_letter_first_and_then_the_free_ones(
            volume,
            free,
            report,
            replies,
            at,
            given,
        );
    } else {
        assert(answered(script, replies, at, first + k));
        if k > 0 {
            assert(calls(volume_script(volume, free, report), replies,
                at)[first + k] is QueryDosDevice);
        }
        law_the_stored_letter_first_and_then_the_free_ones(volume, free, report, replies, at, k);
        assert(calls(volume_script(volume, free, report), replies,
            at)[first + k + 1] is QueryDosDevice);
    }
}

/// The report only grows with what happens.
proof fn lemma_tally_grows(device: Seq<char>, report: ReportModel, before: Seq<Exchange>, k: int)
    requires
        0 <= k <= before.len(),
    ensures
        tally(device, report, before.take(k)).mounted.is_prefix_of(
            tally(device, report, before).mounted,
        ),
        tally(device, report, before.take(k)).errors.is_prefix_of(
            tally(device, report, before).errors,
        ),
        tally(device, report, before.take(k)).already_mounted <= tally(
            device,
            report,
            before,
        ).already_mounted,
    decreases before.len(),
{
    if k < before.len() {
        lemma_tally_grows(device, report, before.drop_last(), k);
        assert(before.drop_last().take(k) == before.take(k));
    } else {
        assert(before.take(k) == before);
    }
}

/// What becomes of a letter that the registry names is in the report that the turn of the volume
/// ends with: a line that names the letter and the device of the volume where the letter was bound,
/// and the reason where it could not be.
pub proof fn law_a_letter_of_the_registry_is_noted(
    volume: VolumeEntry,
    free: Seq<char>,
    report: ReportModel,
    replies: Seq<Reply>,
    at: nat,
    i: int,
)
    requires
        entered(volume) ==> replies[at + lookups(volume)] == Reply::Letter(None),
        outcome(volume_script(volume, free, report), replies, at) is Ended,
        0 <= i < calls(volume_script(volume, free, report), replies, at).len(),
        calls(volume_script(volume, free, report), replies, at)[i] is QueryDosDevice,
        replies[at + i]->Target_0 is None,
    ensures
        ({
            let letter = calls(volume_script(volume, free, report), replies,
                at)[i]->QueryDosDevice_letter;
            let noted = outcome(volume_script(volume, free, report), replies, at)->Ended_0;
            let line = seq![letter] + ": (Session Manager → "@ + bound_to(volume) + seq![')'];
            let by_service = |reply: Result<bool, String>|
                {
                    &&& reply == Ok::<bool, String>(true) ==> noted.mounted.contains(line)
                    &&& reply == Ok::<bool, String>(false) ==> noted.errors.contains(
                        "Failed to assign new drive letter "@ + seq![letter, ':'],
                    )
                    &&& reply is Err ==> noted.errors.contains(
                        "Ext2Fsd service is not started.\n(Ext2Srv pipe: "@ + reply->Err_0@ + seq![
                            ')',
                        ],
                    )
                };
            &&& replies[at + i + 1]->Flag_0 && replies[at + i + 2]->Flag_0
                ==> noted.mounted.contains(
                line,
            )
            &&& replies[at + i + 1]->Flag_0 && !replies[at + i + 2]->Flag_0 ==> by_service(
                replies[at + i + 3]->Service_0,
            )
            &&& !replies[at + i + 1]->Flag_0 ==> by_service(replies[at + i + 2]->Service_0)
        }),
{
    let script = volume_script(volume, free, report);
    let count = calls(volume_script(volume, free, report), replies, at).len() as int;
    let device = bound_to(volume);
    lemma_ended(script, replies, at);
    assert(answered(script, replies, at, i));
    law_a_letter_found_unbound_is_bound(volume, free, report, replies, at, i);
    assert(answered(script, replies, at, i + 1));
    assert(answered(script, replies, at, i + 2));
    lemma_asked(volume, free, report, replies, at, i);
    lemma_pushed(device, report);
    lemma_session_ends(volume, free, report, replies, at, i);
    let decided = if replies[at + i + 1]->Flag_0 && !replies[at + i + 2]->Flag_0 {
        assert(answered(script, replies, at, i + 3));
        i + 3
    } else {
        i + 2
    };
    let all = past(script, replies, at, count);
    lemma_longer_past(volume, free, report, replies, at, decided);
    assert(all.take(decided + 1) == past(script, replies, at, decided + 1));
    lemma_tally_grows(device, report, all, decided + 1);
    let then = tally(device, report, past(script, replies, at, decided + 1));
    let noted = tally(device, report, all);
    assert(session_line(asked(past(script, replies, at, decided)), device) == seq![
        calls(volume_script(volume, free, report), replies, at)[i]->QueryDosDevice_letter,
    ] + ": (Session Manager → "@ + device + seq![')']);
    if then.mounted.len() > 0 {
        assert(noted.mounted[then.mounted.len() - 1] == then.mounted.last());
    }
    if then.errors.len() > 0 {
        assert(noted.errors[then.errors.len() - 1] == then.errors.last());
    }
}

/// A turn in which letters of the registry were looked up ends with what became of them.
proof fn lemma_session_ends(
    volume: VolumeEntry,
    free: Seq<char>,
    report: ReportModel,
    replies: Seq<Reply>,
    at: nat,
    i: int,
)
    requires
        entered(volume) ==> replies[at + lookups(volume)] == Reply::Letter(None),
        outcome(volume_script(volume, free, report), replies, at) is Ended,
        0 <= i < calls(volume_script(volume, free, report), replies, at).len(),
        calls(volume_script(volume, free, report), replies, at)[i] is QueryDosDevice,
    ensures
        outcome(volume_script(volume, free, report), replies, at)->Ended_0 == tally(
            bound_to(volume),
            report,
            past(volume_script(volume, free, report), replies, at, calls(volume_script(volume,
                free, report), replies, at).len() as int),
        ),
{
    let script = volume_script(volume, free, report);
    let last = calls(volume_script(volume, free, report), replies, at).len() - 1;
    lemma_ended(script, replies, at);
    assert(answered(script, replies, at, i));
    assert(answered(script, replies, at, last));
    if i > 0 {
        assert(answered(script, replies, at, i - 1));
    }
    if last > 0 {
        assert(answered(script, replies, at, last - 1));
    }
    lemma_kinds(volume, free, report, replies, at, i);
    lemma_late(volume, free, report, replies, at, last);
    if entered(volume) {
        lemma_entry(volume, free, report, replies, at, last + 1);
    }
    lemma_registry_asked(volume, free, report, replies, at, last + 1);
    lemma_turn_step(volume, free, report, replies, at, last + 1);
}

/// How many of the first `count` calls of a turn have looked a letter up and found it bound.
pub open spec fn found_bound(
    volume: VolumeEntry,
    free: Seq<char>,
    report: ReportModel,
    replies: Seq<Reply>,
    at: nat,
    count: int,
) -> nat
    decreases count,
{
    if count <= 0 {
        0
    } else {
        found_bound(volume, free, report, replies, at, count - 1) + if calls(volume_script(volume,
            free, report), replies, at)[count - 1] is QueryDosDevice
            && replies[at + count - 1]->Target_0 is Some {
            1nat
        } else {
            0
        }
    }
}

/// Each letter that the registry names and that is bound already counts as one more that was
/// skipped, and nothing else does.
pub proof fn law_bound_letters_of_the_registry_are_counted(
    volume: VolumeEntry,
    free: Seq<char>,
    report: ReportModel,
    replies: Seq<Reply>,
    at: nat,
    i: int,
)
    requires
        entered(volume) ==> replies[at + lookups(volume)] == Reply::Letter(None),
        outcome(volume_script(volume, free, report), replies, at) is Ended,
        0 <= i < calls(volume_script(volume, free, report), replies, at).len(),
        calls(volume_script(volume, free, report), replies, at)[i] is QueryDosDevice,
    ensures
        outcome(volume_script(volume, free, report), replies, at)->Ended_0.already_mounted
            == report.already_mounted + found_bound(
            volume,
            free,
            report,
            replies,
            at,
            calls(volume_script(volume, free, report), replies, at).len() as int,
        ),
{
    lemma_session_ends(volume, free, report, replies, at, i);
    lemma_found_bound(volume, free, report, replies, at, calls(volume_script(volume, free,
        report), replies, at).len() as int);
}

proof fn lemma_found_bound(
    volume: VolumeEntry,
    free: Seq<char>,
    report: ReportModel,
    replies: Seq<Reply>,
    at: nat,
    count: int,
)
    requires
        count >= 0,
    ensures
        tally(bound_to(volume), report, past(volume_script(volume, free, report), replies, at,
            count)).already_mounted
            == report.already_mounted + found_bound(volume, free, report, replies, at, count),
    decreases count,
{
    lemma_pushed(bound_to(volume), report);
    if count > 0 {
        lemma_found_bound(volume, free, report, replies, at, count - 1);
        lemma_longer_past(volume, free, report, replies, at, count - 1);
    } else {
        assert(past(volume_script(volume, free, report), replies, at, 0)
            == Seq::<Exchange>::empty());
    }
}

} // verus!
