//! Laws of the automount pass.

use vstd::prelude::*;

use crate::automount::{
    assign_script, automount_line, bind_and_note_script, choose_letter_script, known_volume_script,
    live_script, pending_automounts_script, restore_script, session_letters_script, session_line,
    session_script, settle_script, stored_letter_script, unbound_letter_script, volume_script,
    volumes_script,
};
use crate::letters::free_letters;
use crate::mount::define_temporary_script;
use crate::protocol::{CallView, Reply};
use crate::report::ReportModel;
use crate::script::{
    calls, law_one_reply_for_each_call, lemma_calls_bind, lemma_outcome_bind, outcome,
    Outcome, Script,
};
use crate::trace::{
    lemma_obeys, lemma_obeys_bind, lemma_obeys_bind_any, lemma_obeys_seen_as, lemma_obeys_weaken,
    obeys, state_after, Watch,
};
use crate::volume::{
    device_path, device_target, law_device_path_is_the_target, VolumeEntry,
};

verus! {

/// What the calls of a pass have led to.
pub struct PassState {
    /// The letter that was last asked for, where it was found not to be bound and was not bound
    /// since.
    pub clear: Option<char>,
    /// How many letters were bound.
    pub bound: nat,
    /// How many times a letter was to be bound.
    pub attempts: nat,
}

impl PassState {
    /// Before the first call.
    pub open spec fn start() -> PassState {
        PassState { clear: None, bound: 0, attempts: 0 }
    }

    /// After an attempt to bind a letter.
    pub open spec fn binding(self, done: bool) -> PassState {
        if done {
            PassState { clear: None, bound: self.bound + 1, ..self }
        } else {
            self
        }
    }

    /// After a call and its reply.
    pub open spec fn step(self, call: CallView, reply: Reply) -> PassState {
        match call {
            CallView::QueryDosDevice { letter } => PassState {
                clear: if reply->Target_0 is None {
                    Some(letter)
                } else {
                    None
                },
                ..self
            },
            CallView::IsProcessElevated => PassState { attempts: self.attempts + 1, ..self },
            CallView::FormatUuid { .. } => PassState { attempts: self.attempts + 1, ..self },
            CallView::DefineLocal { .. } => self.binding(reply->Flag_0),
            CallView::ServiceDefine { .. } => self.binding(
                reply->Service_0 is Ok && reply->Service_0->Ok_0,
            ),
            _ => self,
        }
    }

    /// Whether the call is in order: a pass only looks things up, and binds letters that it has
    /// just found not to be bound.
    pub open spec fn may(self, call: CallView) -> bool {
        match call {
            CallView::LogicalDrives => true,
            CallView::MountManagerLetters { .. } => true,
            CallView::AutomountLetter { .. } => true,
            CallView::RegistryLetters { .. } => true,
            CallView::QueryDosDevice { .. } => true,
            CallView::FormatUuid { .. } => true,
            CallView::IsProcessElevated => self.clear is Some,
            CallView::DefineLocal { letter, .. } => self.clear == Some(letter),
            CallView::ServiceDefine { drive, .. } => self.clear is Some && self.clear->0 as u8
                == drive,
            _ => false,
        }
    }
}

/// What the calls for one volume have led to.
pub struct VolumeState {
    pub pass: PassState,
    /// Something is mounted from the volume.
    pub live: bool,
}

impl VolumeState {
    /// Before the first call for the volume.
    pub open spec fn start(volume: VolumeEntry, pass: PassState) -> VolumeState {
        VolumeState { pass, live: volume.letters@.len() > 0 }
    }

    /// After a call and its reply.
    pub open spec fn step(self, call: CallView, reply: Reply) -> VolumeState {
        VolumeState {
            pass: self.pass.step(call, reply),
            live: if call is MountManagerLetters {
                reply->Letters_0@.len() > 0
            } else {
                self.live
            },
        }
    }

    /// Whether the call is in order for the volume: it concerns this volume, and a letter is bound
    /// only where nothing is mounted from it.
    pub open spec fn may(self, volume: VolumeEntry, call: CallView) -> bool {
        let target = device_target(volume.physical_object@, volume.symlink@);
        &&& self.pass.may(call)
        &&& match call {
            CallView::LogicalDrives => false,
            CallView::MountManagerLetters { volume_name } => volume_name
                == volume.win32_volume_name@,
            CallView::AutomountLetter { uuid } => volume.uuid == Some(uuid),
            CallView::RegistryLetters { device } => device == target,
            CallView::QueryDosDevice { .. } => !self.live,
            CallView::FormatUuid { uuid } => volume.uuid == Some(uuid) && !self.live,
            CallView::IsProcessElevated => !self.live,
            CallView::DefineLocal { target: t, .. } => t == target && !self.live,
            CallView::ServiceDefine { target: t, .. } => t == target && !self.live,
            _ => false,
        }
    }
}

/// The watch over a pass.
pub open spec fn pass_watch() -> Watch<PassState> {
    Watch {
        step: |state: PassState, call: CallView, reply: Reply| state.step(call, reply),
        may: |state: PassState, call: CallView| state.may(call),
    }
}

/// The watch over what a pass does for one volume.
pub open spec fn volume_watch(volume: VolumeEntry) -> Watch<VolumeState> {
    Watch {
        step: |state: VolumeState, call: CallView, reply: Reply| state.step(call, reply),
        may: |state: VolumeState, call: CallView| state.may(volume, call),
    }
}

/// The later report holds what the earlier one does and, beyond that, a line for each letter that
/// was bound in between and an error for each attempt that has failed.
pub open spec fn accounts(
    before: ReportModel,
    earlier: PassState,
    after: ReportModel,
    later: PassState,
) -> bool {
    &&& before.mounted.is_prefix_of(after.mounted)
    &&& before.errors.is_prefix_of(after.errors)
    &&& before.already_mounted <= after.already_mounted
    &&& after.mounted.len() - before.mounted.len() == later.bound - earlier.bound
    &&& after.mounted.len() + after.errors.len() - before.mounted.len() - before.errors.len()
        == later.attempts - earlier.attempts
}

proof fn lemma_define_obeys(
    volume: VolumeEntry,
    letter: char,
    target: Seq<char>,
    state: VolumeState,
)
    requires
        state.pass.clear == Some(letter),
        !state.live,
        target == device_target(volume.physical_object@, volume.symlink@),
    ensures
        obeys(
            define_temporary_script(letter, target),
            state,
            volume_watch(volume),
            |later: VolumeState, defined: Result<(), Seq<char>>|
                {
                    &&& !later.live
                    &&& later.pass.attempts == state.pass.attempts + 1
                    &&& later.pass.bound == state.pass.bound + if defined is Ok {
                        1nat
                    } else {
                        0
                    }
                },
        ),
{
    reveal_with_fuel(obeys, 4);
}

proof fn lemma_bind_and_note_obeys(
    volume: VolumeEntry,
    letter: char,
    target: Seq<char>,
    line: Seq<char>,
    report: ReportModel,
    state: VolumeState,
)
    requires
        state.pass.clear == Some(letter),
        !state.live,
        target == device_target(volume.physical_object@, volume.symlink@),
    ensures
        obeys(
            bind_and_note_script(letter, target, line, report),
            state,
            volume_watch(volume),
            |later: VolumeState, noted: ReportModel|
                !later.live && accounts(report, state.pass, noted, later.pass),
        ),
{
    lemma_define_obeys(volume, letter, target, state);
    lemma_obeys_bind(
        define_temporary_script(letter, target),
        |defined: Result<(), Seq<char>>| Script::Done(report.noting(defined, line)),
        state,
        volume_watch(volume),
        |later: VolumeState, defined: Result<(), Seq<char>>|
            {
                &&& !later.live
                &&& later.pass.attempts == state.pass.attempts + 1
                &&& later.pass.bound == state.pass.bound + if defined is Ok {
                    1nat
                } else {
                    0
                }
            },
        |later: VolumeState, noted: ReportModel|
            !later.live && accounts(report, state.pass, noted, later.pass),
    );
}

/// A letter that was chosen is one of those to choose from and was just found not to be bound.
pub open spec fn chosen(
    free: Seq<char>,
    state: VolumeState,
    later: VolumeState,
    letter: Option<char>,
) -> bool {
    &&& !later.live
    &&& later.pass.bound == state.pass.bound
    &&& later.pass.attempts == state.pass.attempts
    &&& letter is Some ==> later.pass.clear == letter && free.contains(letter->0)
}

proof fn lemma_unbound_letter_obeys(
    volume: VolumeEntry,
    free: Seq<char>,
    from: nat,
    start: VolumeState,
    state: VolumeState,
)
    requires
        !state.live,
        state.pass.bound == start.pass.bound,
        state.pass.attempts == start.pass.attempts,
    ensures
        obeys(
            unbound_letter_script(free, from),
            state,
            volume_watch(volume),
            |later: VolumeState, letter: Option<char>| chosen(free, start, later, letter),
        ),
    decreases free.len() - from,
{
    if from < free.len() {
        let watch = volume_watch(volume);
        let end = |later: VolumeState, letter: Option<char>| chosen(free, start, later, letter);
        let script = unbound_letter_script(free, from);
        let next = script->Ask_1;
        assert forall|reply: Reply| script->Ask_0.fits(reply) implies obeys(
            #[trigger] next(reply),
            (watch.step)(state, script->Ask_0, reply),
            watch,
            end,
        ) by {
            let later = (watch.step)(state, script->Ask_0, reply);
            if reply->Target_0 is None {
                assert(free.contains(free[from as int]));
            } else {
                lemma_unbound_letter_obeys(volume, free, from + 1, start, later);
            }
        }
    }
}

proof fn lemma_choose_letter_obeys(
    volume: VolumeEntry,
    free: Seq<char>,
    preferred: char,
    state: VolumeState,
)
    requires
        !state.live,
    ensures
        obeys(
            choose_letter_script(free, preferred),
            state,
            volume_watch(volume),
            |later: VolumeState, letter: Option<char>| chosen(free, state, later, letter),
        ),
{
    let watch = volume_watch(volume);
    let end = |later: VolumeState, letter: Option<char>| chosen(free, state, later, letter);
    if free.contains(preferred) {
        let script = choose_letter_script(free, preferred);
        let next = script->Ask_1;
        assert forall|reply: Reply| script->Ask_0.fits(reply) implies obeys(
            #[trigger] next(reply),
            (watch.step)(state, script->Ask_0, reply),
            watch,
            end,
        ) by {
            let later = (watch.step)(state, script->Ask_0, reply);
            if reply->Target_0 is Some {
                lemma_unbound_letter_obeys(volume, free, 0, state, later);
            }
        }
    } else {
        lemma_unbound_letter_obeys(volume, free, 0, state, state);
    }
}

proof fn lemma_restore_obeys(
    volume: VolumeEntry,
    preferred: char,
    free: Seq<char>,
    report: ReportModel,
    state: VolumeState,
)
    requires
        volume.uuid is Some,
    ensures
        obeys(
            restore_script(volume, preferred, state.live, free, report),
            state,
            volume_watch(volume),
            |later: VolumeState, noted: ReportModel|
                accounts(report, state.pass, noted, later.pass),
        ),
{
    let watch = volume_watch(volume);
    let end = |later: VolumeState, noted: ReportModel|
        accounts(report, state.pass, noted, later.pass);
    if !state.live {
        let between = |later: VolumeState, letter: Option<char>|
            chosen(free, state, later, letter);
        lemma_choose_letter_obeys(volume, free, preferred, state);
        assert forall|later: VolumeState, letter: Option<char>| #[trigger]
            between(later, letter) implies obeys(
            assign_script(volume, letter, report),
            later,
            watch,
            end,
        ) by {
            let target = device_target(volume.physical_object@, volume.symlink@);
            if letter is Some {
                let line = automount_line(letter->0, target);
                lemma_bind_and_note_obeys(volume, letter->0, target, line, report, later);
                lemma_obeys_weaken(
                    bind_and_note_script(letter->0, target, line, report),
                    later,
                    watch,
                    |after: VolumeState, noted: ReportModel|
                        !after.live && accounts(report, later.pass, noted, after.pass),
                    end,
                );
            } else {
                reveal_with_fuel(obeys, 2);
            }
        }
        lemma_obeys_bind(
            choose_letter_script(free, preferred),
            |letter: Option<char>| assign_script(volume, letter, report),
            state,
            watch,
            between,
            end,
        );
    }
}

proof fn lemma_session_letters_obeys(
    volume: VolumeEntry,
    letters: Seq<char>,
    from: nat,
    first: ReportModel,
    start: PassState,
    report: ReportModel,
    state: VolumeState,
)
    requires
        !state.live,
        accounts(first, start, report, state.pass),
    ensures
        obeys(
            session_letters_script(
                device_target(volume.physical_object@, volume.symlink@),
                letters,
                from,
                report,
            ),
            state,
            volume_watch(volume),
            |later: VolumeState, noted: ReportModel| accounts(first, start, noted, later.pass),
        ),
    decreases letters.len() - from,
{
    let device = device_target(volume.physical_object@, volume.symlink@);
    let watch = volume_watch(volume);
    let end = |later: VolumeState, noted: ReportModel| accounts(first, start, noted, later.pass);
    if from < letters.len() {
        let letter = letters[from as int];
        let script = session_letters_script(device, letters, from, report);
        let next = script->Ask_1;
        assert forall|reply: Reply| script->Ask_0.fits(reply) implies obeys(
            #[trigger] next(reply),
            (watch.step)(state, script->Ask_0, reply),
            watch,
            end,
        ) by {
            let later = (watch.step)(state, script->Ask_0, reply);
            if reply->Target_0 is Some {
                lemma_session_letters_obeys(
                    volume,
                    letters,
                    from + 1,
                    first,
                    start,
                    report.skipping(),
                    later,
                );
            } else {
                let line = session_line(letter, device);
                let between = |after: VolumeState, noted: ReportModel|
                    !after.live && accounts(report, later.pass, noted, after.pass);
                lemma_bind_and_note_obeys(volume, letter, device, line, report, later);
                assert forall|after: VolumeState, noted: ReportModel| #[trigger]
                    between(after, noted) implies obeys(
                    session_letters_script(device, letters, from + 1, noted),
                    after,
                    watch,
                    end,
                ) by {
                    lemma_session_letters_obeys(
                        volume,
                        letters,
                        from + 1,
                        first,
                        start,
                        noted,
                        after,
                    );
                }
                lemma_obeys_bind_any(
                    bind_and_note_script(letter, device, line, report),
                    later,
                    watch,
                    between,
                    end,
                );
            }
        }
    }
}

proof fn lemma_session_obeys(volume: VolumeEntry, report: ReportModel, state: VolumeState)
    ensures
        obeys(
            session_script(volume, state.live, report),
            state,
            volume_watch(volume),
            |later: VolumeState, noted: ReportModel|
                accounts(report, state.pass, noted, later.pass),
        ),
{
    let watch = volume_watch(volume);
    let end = |later: VolumeState, noted: ReportModel|
        accounts(report, state.pass, noted, later.pass);
    let device = device_path(volume.physical_object@, volume.symlink@);
    if device.len() > 0 {
        law_device_path_is_the_target(volume.physical_object@, volume.symlink@);
        let script = session_script(volume, state.live, report);
        let next = script->Ask_1;
        assert forall|reply: Reply| script->Ask_0.fits(reply) implies obeys(
            #[trigger] next(reply),
            (watch.step)(state, script->Ask_0, reply),
            watch,
            end,
        ) by {
            let later = (watch.step)(state, script->Ask_0, reply);
            if reply->Letters_0@.len() > 0 && !state.live {
                lemma_session_letters_obeys(
                    volume,
                    reply->Letters_0@,
                    0,
                    report,
                    state.pass,
                    report,
                    later,
                );
            }
        }
    }
}

proof fn lemma_known_volume_obeys(
    volume: VolumeEntry,
    free: Seq<char>,
    report: ReportModel,
    state: VolumeState,
)
    ensures
        obeys(
            known_volume_script(volume, state.live, free, report),
            state,
            volume_watch(volume),
            |later: VolumeState, noted: ReportModel|
                accounts(report, state.pass, noted, later.pass),
        ),
{
    let watch = volume_watch(volume);
    let end = |later: VolumeState, noted: ReportModel|
        accounts(report, state.pass, noted, later.pass);
    let between = |later: VolumeState, stored: Option<char>|
        later == state && (stored is Some ==> volume.uuid is Some);
    assert(obeys(stored_letter_script(volume), state, watch, between)) by {
        reveal_with_fuel(obeys, 2);
    }
    assert forall|later: VolumeState, stored: Option<char>| #[trigger]
        between(later, stored) implies obeys(
        settle_script(volume, state.live, stored, free, report),
        later,
        watch,
        end,
    ) by {
        if stored is Some {
            lemma_restore_obeys(volume, stored->0, free, report, state);
        } else {
            lemma_session_obeys(volume, report, state);
        }
    }
    lemma_obeys_bind(
        stored_letter_script(volume),
        |stored: Option<char>| settle_script(volume, state.live, stored, free, report),
        state,
        watch,
        between,
        end,
    );
}

proof fn lemma_volume_obeys(
    volume: VolumeEntry,
    free: Seq<char>,
    report: ReportModel,
    pass: PassState,
)
    ensures
        obeys(
            volume_script(volume, free, report),
            VolumeState::start(volume, pass),
            volume_watch(volume),
            |later: VolumeState, noted: ReportModel| accounts(report, pass, noted, later.pass),
        ),
{
    let watch = volume_watch(volume);
    let start = VolumeState::start(volume, pass);
    let end = |later: VolumeState, noted: ReportModel| accounts(report, pass, noted, later.pass);
    let between = |later: VolumeState, live: bool| later == (VolumeState { pass, live });
    assert(obeys(live_script(volume), start, watch, between)) by {
        reveal_with_fuel(obeys, 2);
    }
    assert forall|later: VolumeState, live: bool| #[trigger] between(later, live) implies obeys(
        known_volume_script(volume, live, free, report),
        later,
        watch,
        end,
    ) by {
        lemma_known_volume_obeys(volume, free, report, later);
    }
    lemma_obeys_bind(
        live_script(volume),
        |live: bool| known_volume_script(volume, live, free, report),
        start,
        watch,
        between,
        end,
    );
}

proof fn lemma_volumes_obey(
    volumes: Seq<VolumeEntry>,
    from: nat,
    free: Seq<char>,
    first: ReportModel,
    start: PassState,
    report: ReportModel,
    pass: PassState,
)
    requires
        accounts(first, start, report, pass),
    ensures
        obeys(
            volumes_script(volumes, from, free, report),
            pass,
            pass_watch(),
            |later: PassState, noted: ReportModel| accounts(first, start, noted, later),
        ),
    decreases volumes.len() - from,
{
    let watch = pass_watch();
    let end = |later: PassState, noted: ReportModel| accounts(first, start, noted, later);
    if from < volumes.len() {
        let volume = volumes[from as int];
        let between = |later: PassState, noted: ReportModel| accounts(report, pass, noted, later);
        lemma_volume_obeys(volume, free, report, pass);
        lemma_obeys_seen_as(
            volume_script(volume, free, report),
            VolumeState::start(volume, pass),
            volume_watch(volume),
            |later: VolumeState, noted: ReportModel| accounts(report, pass, noted, later.pass),
            |state: VolumeState| state.pass,
            watch,
            between,
        );
        assert forall|later: PassState, noted: ReportModel| #[trigger]
            between(later, noted) implies obeys(
            volumes_script(volumes, from + 1, free, noted),
            later,
            watch,
            end,
        ) by {
            lemma_volumes_obey(volumes, from + 1, free, first, start, noted, later);
        }
        lemma_obeys_bind_any(volume_script(volume, free, report), pass, watch, between, end);
    }
}

/// The calls of a pass.
pub open spec fn pass_calls(volumes: Seq<VolumeEntry>, replies: Seq<Reply>) -> Seq<CallView> {
    calls(pending_automounts_script(volumes), replies, 0)
}

/// The state of a pass after the first `count` of its calls.
pub open spec fn pass_state(
    volumes: Seq<VolumeEntry>,
    replies: Seq<Reply>,
    count: nat,
) -> PassState {
    state_after(
        pass_watch(),
        PassState::start(),
        pass_calls(volumes, replies),
        replies,
        0,
        count,
    )
}

proof fn lemma_pass_obeys(volumes: Seq<VolumeEntry>)
    ensures
        obeys(
            pending_automounts_script(volumes),
            PassState::start(),
            pass_watch(),
            |later: PassState, noted: ReportModel|
                accounts(ReportModel::start(), PassState::start(), noted, later),
        ),
{
    let watch = pass_watch();
    let start = PassState::start();
    let end = |later: PassState, noted: ReportModel|
        accounts(ReportModel::start(), start, noted, later);
    let script = pending_automounts_script(volumes);
    let next = script->Ask_1;
    assert forall|reply: Reply| script->Ask_0.fits(reply) implies obeys(
        #[trigger] next(reply),
        (watch.step)(start, script->Ask_0, reply),
        watch,
        end,
    ) by {
        lemma_volumes_obey(
            volumes,
            0,
            free_letters(reply->Mask_0),
            ReportModel::start(),
            start,
            ReportModel::start(),
            start,
        );
    }
}

/// Each call of a pass is in order: it looks something up, or it binds a letter that was just found
/// not to be bound. A pass writes nothing to the registry, to the automount entries or to the Mount
/// Manager, and takes no letter away.
pub proof fn law_pass_only_binds(volumes: Seq<VolumeEntry>, replies: Seq<Reply>)
    ensures
        forall|i: int|
            0 <= i < pass_calls(volumes, replies).len() ==> pass_state(
                volumes,
                replies,
                i as nat,
            ).may(#[trigger] pass_calls(volumes, replies)[i]),
{
    lemma_pass_obeys(volumes);
    lemma_obeys(
        pending_automounts_script(volumes),
        PassState::start(),
        pass_watch(),
        |later: PassState, noted: ReportModel|
            accounts(ReportModel::start(), PassState::start(), noted, later),
        replies,
        0,
    );
}

/// The report of a pass has a line for each letter that the pass has bound, and an error for each
/// attempt to bind one that has failed.
pub proof fn law_report_accounts_for_every_attempt(
    volumes: Seq<VolumeEntry>,
    replies: Seq<Reply>,
)
    ensures
        outcome(pending_automounts_script(volumes), replies, 0) matches Outcome::Ended(report, stop)
            ==> {
            &&& report.mounted.len() == pass_state(volumes, replies, stop).bound
            &&& report.mounted.len() + report.errors.len() == pass_state(
                volumes,
                replies,
                stop,
            ).attempts
        },
{
    lemma_pass_obeys(volumes);
    lemma_obeys(
        pending_automounts_script(volumes),
        PassState::start(),
        pass_watch(),
        |later: PassState, noted: ReportModel|
            accounts(ReportModel::start(), PassState::start(), noted, later),
        replies,
        0,
    );
    law_one_reply_for_each_call(pending_automounts_script(volumes), replies, 0);
}

/// Whether the call at position `j` has found the letter not to be bound, and no letter was asked
/// for between it and position `i`.
pub open spec fn found_unbound(
    made: Seq<CallView>,
    replies: Seq<Reply>,
    letter: char,
    j: int,
    i: int,
) -> bool {
    &&& 0 <= j < i
    &&& made[j] == (CallView::QueryDosDevice { letter })
    &&& replies[j]->Target_0 is None
    &&& forall|k: int| j < k < i ==> !(#[trigger] made[k] is QueryDosDevice)
}

proof fn lemma_clear_was_found(made: Seq<CallView>, replies: Seq<Reply>, count: nat)
    requires
        count <= made.len(),
    ensures
        ({
            let state = state_after(pass_watch(), PassState::start(), made, replies, 0, count);
            state.clear is Some ==> exists|j: int|
                found_unbound(made, replies, state.clear->0, j, count as int)
        }),
    decreases count,
{
    let state = state_after(pass_watch(), PassState::start(), made, replies, 0, count);
    if count > 0 && state.clear is Some {
        let last = count - 1;
        let before = state_after(
            pass_watch(),
            PassState::start(),
            made,
            replies,
            0,
            last as nat,
        );
        lemma_clear_was_found(made, replies, last as nat);
        assert(state == before.step(made[last], replies[last]));
        if made[last] is QueryDosDevice {
            assert(found_unbound(made, replies, state.clear->0, last, count as int));
        } else {
            let j = choose|j: int| found_unbound(made, replies, before.clear->0, j, last);
            assert(found_unbound(made, replies, state.clear->0, j, count as int));
        }
    }
}

/// A pass binds no letter over a live DOS device: whenever it asks for a letter to be bound, the
/// last letter that it has looked up is the same one, and that was not bound to anything.
pub proof fn law_a_letter_is_looked_up_before_it_is_bound(
    volumes: Seq<VolumeEntry>,
    replies: Seq<Reply>,
    i: int,
)
    requires
        0 <= i < pass_calls(volumes, replies).len(),
    ensures
        pass_calls(volumes, replies)[i] matches CallView::DefineLocal { letter, .. } ==> exists|
            j: int,
        |
            found_unbound(pass_calls(volumes, replies), replies, letter, j, i),
        pass_calls(volumes, replies)[i] matches CallView::ServiceDefine { drive, .. } ==> exists|
            letter: char,
            j: int,
        |
            letter as u8 == drive && found_unbound(
                pass_calls(volumes, replies),
                replies,
                letter,
                j,
                i,
            ),
{
    law_pass_only_binds(volumes, replies);
    lemma_clear_was_found(pass_calls(volumes, replies), replies, i as nat);
    let state = pass_state(volumes, replies, i as nat);
    if state.clear is Some {
        let j = choose|j: int|
            found_unbound(pass_calls(volumes, replies), replies, state.clear->0, j, i);
        assert(found_unbound(pass_calls(volumes, replies), replies, state.clear->0, j, i));
    }
}

/// What a pass does for one volume concerns that volume only, binds its device path where it has
/// one, and binds nothing where something is mounted from it.
pub proof fn law_each_volume_for_itself(
    volume: VolumeEntry,
    free: Seq<char>,
    report: ReportModel,
    replies: Seq<Reply>,
    at: nat,
)
    ensures
        forall|i: int|
            0 <= i < calls(volume_script(volume, free, report), replies, at).len() ==> state_after(
                volume_watch(volume),
                VolumeState::start(volume, PassState::start()),
                calls(volume_script(volume, free, report), replies, at),
                replies,
                at,
                i as nat,
            ).may(volume, #[trigger] calls(volume_script(volume, free, report), replies, at)[i]),
{
    lemma_volume_obeys(volume, free, report, PassState::start());
    lemma_obeys(
        volume_script(volume, free, report),
        VolumeState::start(volume, PassState::start()),
        volume_watch(volume),
        |later: VolumeState, noted: ReportModel|
            accounts(report, PassState::start(), noted, later.pass),
        replies,
        at,
    );
}

/// The watch that lets a volume be looked up and nothing else.
pub open spec fn lookup_watch() -> Watch<()> {
    Watch {
        step: |_state: (), _call: CallView, _reply: Reply| (),
        may: |_state: (), call: CallView| call is AutomountLetter || call is RegistryLetters,
    }
}

/// Whether something is mounted from the volume: it has a letter, or the reply at this position
/// says that the Mount Manager holds one for it.
pub open spec fn is_live(volume: VolumeEntry, replies: Seq<Reply>, at: nat) -> bool {
    ||| volume.letters@.len() > 0
    ||| volume.win32_volume_name@.len() > 0 && at < replies.len() && replies[at as int] is Letters
        && replies[at as int]->Letters_0@.len() > 0
}

/// A volume from which something is mounted already is left alone: it is looked up, and at most
/// counted as skipped.
pub proof fn law_a_live_volume_is_left_alone(
    volume: VolumeEntry,
    free: Seq<char>,
    report: ReportModel,
    replies: Seq<Reply>,
    at: nat,
)
    requires
        is_live(volume, replies, at),
    ensures
        forall|i: int|
            0 <= i < calls(volume_script(volume, free, report), replies, at).len() ==> {
                let call = #[trigger] calls(volume_script(volume, free, report), replies, at)[i];
                call is MountManagerLetters || call is AutomountLetter || call is RegistryLetters
            },
        outcome(volume_script(volume, free, report), replies, at) matches Outcome::Ended(noted, _)
            ==> noted == report || noted == report.skipping(),
{
    let known = known_volume_script(volume, true, free, report);
    let end = |_state: (), noted: ReportModel| noted == report || noted == report.skipping();
    let between = |_state: (), stored: Option<char>| true;
    assert(obeys(stored_letter_script(volume), (), lookup_watch(), between)) by {
        reveal_with_fuel(obeys, 2);
    }
    assert forall|later: (), stored: Option<char>| #[trigger] between(later, stored) implies obeys(
        settle_script(volume, true, stored, free, report),
        later,
        lookup_watch(),
        end,
    ) by {
        reveal_with_fuel(obeys, 2);
    }
    lemma_obeys_bind(
        stored_letter_script(volume),
        |stored: Option<char>| settle_script(volume, true, stored, free, report),
        (),
        lookup_watch(),
        between,
        end,
    );
    let onward = |live: bool| known_volume_script(volume, live, free, report);
    reveal_with_fuel(outcome, 2);
    reveal_with_fuel(calls, 2);
    lemma_calls_bind(live_script(volume), onward, replies, at);
    lemma_outcome_bind(live_script(volume), onward, replies, at);
    let stop = outcome(live_script(volume), replies, at)->Ended_1;
    lemma_obeys(known, (), lookup_watch(), end, replies, stop);
    let made = calls(volume_script(volume, free, report), replies, at);
    let looked = calls(live_script(volume), replies, at);
    assert(made == looked + calls(known, replies, stop));
    assert forall|i: int| 0 <= i < made.len() implies {
        let call = #[trigger] made[i];
        call is MountManagerLetters || call is AutomountLetter || call is RegistryLetters
    } by {
        if i >= looked.len() {
            assert(made[i] == calls(known, replies, stop)[i - looked.len()]);
        }
    }
}

/// A volume that nothing claims a letter for (no EXT volume with a UUID, and no device path that
/// the registry could name) is looked up in the Mount Manager at most, and leaves the report as it
/// is.
pub proof fn law_an_unclaimed_volume_is_passed_over(
    volume: VolumeEntry,
    free: Seq<char>,
    report: ReportModel,
    replies: Seq<Reply>,
    at: nat,
)
    requires
        !crate::volume::in_ext_family(volume.filesystem@) || volume.uuid is None,
        device_path(volume.physical_object@, volume.symlink@).len() == 0,
    ensures
        calls(volume_script(volume, free, report), replies, at) == calls(
            live_script(volume),
            replies,
            at,
        ),
        outcome(volume_script(volume, free, report), replies, at) matches Outcome::Ended(noted, _)
            ==> noted == report,
{
    let onward = |live: bool| known_volume_script(volume, live, free, report);
    lemma_calls_bind(live_script(volume), onward, replies, at);
    lemma_outcome_bind(live_script(volume), onward, replies, at);
    if outcome(live_script(volume), replies, at) is Ended {
        let live = outcome(live_script(volume), replies, at)->Ended_0;
        assert(onward(live) == Script::Done(report));
        assert(calls(live_script(volume), replies, at) + Seq::<CallView>::empty() == calls(
            live_script(volume),
            replies,
            at,
        ));
    }
}

/// The search for a letter gives the first one that is not bound to anything; it finds none only
/// where every letter is bound.
pub proof fn law_the_first_unbound_letter_is_found(
    free: Seq<char>,
    from: nat,
    replies: Seq<Reply>,
    at: nat,
)
    requires
        from <= free.len(),
    ensures
        outcome(unbound_letter_script(free, from), replies, at) matches Outcome::Ended(letter, stop)
            ==> {
            &&& at <= stop <= at + free.len() - from
            &&& letter matches Some(found) ==> {
                &&& at < stop
                &&& found == free[from + stop - at - 1]
                &&& replies[stop - 1]->Target_0 is None
                &&& forall|j: int| at <= j < stop - 1 ==> (#[trigger] replies[j])->Target_0 is Some
            }
            &&& letter is None ==> {
                &&& stop == at + free.len() - from
                &&& forall|j: int| at <= j < stop ==> (#[trigger] replies[j])->Target_0 is Some
            }
        },
    decreases free.len() - from,
{
    if from < free.len() {
        let script = unbound_letter_script(free, from);
        if at < replies.len() && replies[at as int] is Target {
            let next = (script->Ask_1)(replies[at as int]);
            assert(outcome(script, replies, at) == outcome(next, replies, at + 1));
            if replies[at as int]->Target_0 is Some {
                law_the_first_unbound_letter_is_found(free, from + 1, replies, at + 1);
            }
        }
    }
}

/// A volume with an automount entry is given the letter in the entry whenever that letter is free
/// and not bound to anything; and any letter that it is given is a free one.
pub proof fn law_the_stored_letter_is_preferred(
    free: Seq<char>,
    preferred: char,
    replies: Seq<Reply>,
    at: nat,
)
    ensures
        free.contains(preferred) && at < replies.len() && replies[at as int] is Target
            && replies[at as int]->Target_0 is None ==> outcome(
            choose_letter_script(free, preferred),
            replies,
            at,
        ) == Outcome::<Option<char>>::Ended(Some(preferred), at + 1),
        outcome(choose_letter_script(free, preferred), replies, at) matches Outcome::Ended(
            Some(letter),
            _,
        ) ==> free.contains(letter),
{
    reveal_with_fuel(outcome, 2);
    law_the_first_unbound_letter_is_found(free, 0, replies, at);
    law_the_first_unbound_letter_is_found(free, 0, replies, at + 1);
    if free.contains(preferred) && at < replies.len() && replies[at as int] is Target
        && replies[at as int]->Target_0 is Some {
        let script = choose_letter_script(free, preferred);
        assert(outcome(script, replies, at) == outcome(
            unbound_letter_script(free, 0),
            replies,
            at + 1,
        ));
    }
}

} // verus!
