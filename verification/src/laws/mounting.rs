//! Laws of mounting.

use vstd::prelude::*;

use crate::mount::{
    assign_via_mount_manager_script, automount_script, bind_letter_script, define_temporary_script,
    drive_root, enter_bound_script, enter_probed_script, mount_volume_script, probe_script,
    report_automount_script, report_script, set_mount_point_script,
    MountMode, MountRequest,
};
use crate::protocol::{CallView, Reply};
use crate::script::{calls, law_one_reply_for_each_call, outcome, Outcome};
use crate::trace::{
    answered, ends_within, lemma_answered, lemma_ends_within, lemma_ends_within_bind, lemma_obeys,
    lemma_obeys_bind, lemma_obeys_weaken, lemma_rule, obeys, past, rule_end, rule_watch,
    state_after, step_after, Exchange, Step, Watch,
};

verus! {

/// What the calls of a mount have led to.
pub struct MountState {
    /// The letter is written to the registry or to the automount entry.
    pub recorded: bool,
    /// The letter is bound as a DOS device, and since then nothing was asked to take it back.
    pub bound: bool,
    /// The volume is entered in the Mount Manager.
    pub entered: bool,
}

impl MountState {
    /// Before the first call.
    pub open spec fn start() -> MountState {
        MountState { recorded: false, bound: false, entered: false }
    }

    /// After a call and its reply.
    pub open spec fn step(self, call: CallView, reply: Reply) -> MountState {
        match call {
            CallView::SetRegistry { .. } => MountState {
                recorded: reply->Status_0 is Ok,
                ..self
            },
            CallView::StoreAutomount { .. } => MountState {
                recorded: reply->Status_0 is Ok,
                ..self
            },
            CallView::DefineLocal { .. } => MountState { bound: reply->Flag_0, ..self },
            CallView::ServiceDefine { .. } => MountState {
                bound: reply->Service_0 is Ok && reply->Service_0->Ok_0,
                ..self
            },
            CallView::RemoveLocal { .. } => MountState { bound: false, ..self },
            CallView::SetMountPoint { .. } => MountState {
                entered: reply->Status_0 is Ok,
                ..self
            },
            _ => self,
        }
    }

    /// Whether the letter of the request may be bound now: where it is to be recorded, only once it
    /// is; for the Mount Manager, only to find a volume name that is not known.
    pub open spec fn may_bind(self, request: MountRequest) -> bool {
        &&& !self.bound
        &&& match request.mode {
            MountMode::Temporary => true,
            MountMode::MountManager => request.win32_volume_name@.len() == 0,
            MountMode::PermanentRegistry => self.recorded,
            MountMode::Ext2Automount => self.recorded,
        }
    }

    /// Whether the call is in order for the request.
    pub open spec fn may(self, request: MountRequest, call: CallView) -> bool {
        match call {
            CallView::IsProcessElevated => self.may_bind(request),
            CallView::DefineLocal { letter, target } => letter == request.letter && target
                == request.symlink@ && self.may_bind(request),
            CallView::ServiceDefine { drive, target } => drive == request.letter as u8 && target
                == request.symlink@ && self.may_bind(request),
            CallView::SetRegistry { letter, target } => request.mode is PermanentRegistry && letter
                == request.letter && target == request.symlink@ && self == MountState::start(),
            CallView::StoreAutomount { uuid, letter, codepage, readonly } => request.mode
                is Ext2Automount && request.uuid == Some(uuid) && letter == request.letter
                && codepage == request.codepage@ && readonly == request.readonly && self
                == MountState::start(),
            CallView::FormatUuid { uuid } => request.mode is Ext2Automount && request.uuid == Some(
                uuid,
            ) && self.bound,
            CallView::VolumeName { mount_root } => request.mode is MountManager && mount_root
                == drive_root(request.letter) && self.bound,
            CallView::RemoveLocal { letter, target } => request.mode is MountManager && letter
                == request.letter && target == request.symlink@,
            CallView::QueryDosDevice { letter } => request.mode is MountManager && letter
                == request.letter && !self.bound,
            CallView::SetMountPoint { mount_root, .. } => request.mode is MountManager && mount_root
                == drive_root(request.letter) && !self.bound,
            _ => false,
        }
    }
}

/// The watch over a mount.
pub open spec fn mount_watch(request: MountRequest) -> Watch<MountState> {
    Watch {
        step: |state: MountState, call: CallView, reply: Reply| state.step(call, reply),
        may: |state: MountState, call: CallView| state.may(request, call),
    }
}

/// The state of a mount after the first `count` of its calls.
pub open spec fn mount_state(request: MountRequest, replies: Seq<Reply>, count: nat) -> MountState {
    state_after(
        mount_watch(request),
        MountState::start(),
        calls(mount_volume_script(request), replies, 0),
        replies,
        0,
        count,
    )
}

proof fn lemma_define_obeys(request: MountRequest, state: MountState)
    requires
        state.may_bind(request),
    ensures
        obeys(
            define_temporary_script(request.letter, request.symlink@),
            state,
            mount_watch(request),
            |later: MountState, defined: Result<(), Seq<char>>|
                later == (MountState { bound: defined is Ok, ..state }),
        ),
{
    reveal_with_fuel(obeys, 4);
}

proof fn lemma_set_obeys(request: MountRequest, state: MountState, name: Seq<char>)
    requires
        request.mode is MountManager,
        !state.bound,
    ensures
        obeys(
            set_mount_point_script(request.letter, name),
            state,
            mount_watch(request),
            |later: MountState, done: Result<(), Seq<char>>|
                !later.bound && (later.entered <==> done is Ok),
        ),
{
    reveal_with_fuel(obeys, 2);
}

proof fn lemma_probe_obeys(request: MountRequest, state: MountState)
    requires
        request.mode is MountManager,
        state.bound,
        !state.entered,
    ensures
        obeys(
            probe_script(request.letter, request.symlink@),
            state,
            mount_watch(request),
            |later: MountState, probed: Result<Seq<char>, Seq<char>>|
                !later.bound && !later.entered,
        ),
{
    reveal_with_fuel(obeys, 5);
}

proof fn lemma_assign_obeys(request: MountRequest)
    requires
        request.mode is MountManager,
    ensures
        obeys(
            assign_via_mount_manager_script(
                request.letter,
                request.symlink@,
                request.win32_volume_name@,
            ),
            MountState::start(),
            mount_watch(request),
            |later: MountState, done: Result<(), Seq<char>>|
                !later.bound && (later.entered <==> done is Ok),
        ),
{
    let watch = mount_watch(request);
    let letter = request.letter;
    let symlink = request.symlink@;
    let end = |later: MountState, done: Result<(), Seq<char>>|
        !later.bound && (later.entered <==> done is Ok);
    if request.win32_volume_name@.len() > 0 {
        lemma_set_obeys(
            request,
            MountState::start(),
            crate::mount::closed_name(request.win32_volume_name@),
        );
    } else {
        let start = MountState::start();
        let defining = |later: MountState, defined: Result<(), Seq<char>>|
            later == (MountState { bound: defined is Ok, ..start });
        lemma_define_obeys(request, start);
        assert forall|later: MountState, defined: Result<(), Seq<char>>| #[trigger]
            defining(later, defined) implies obeys(
            enter_bound_script(letter, symlink, defined),
            later,
            watch,
            end,
        ) by {
            if defined is Ok {
                let probing = |after: MountState, probed: Result<Seq<char>, Seq<char>>|
                    !after.bound && !after.entered;
                lemma_probe_obeys(request, later);
                assert forall|after: MountState, probed: Result<Seq<char>, Seq<char>>| #[trigger]
                    probing(after, probed) implies obeys(
                    enter_probed_script(letter, probed),
                    after,
                    watch,
                    end,
                ) by {
                    if probed is Ok {
                        lemma_set_obeys(request, after, probed->Ok_0);
                    }
                }
                lemma_obeys_bind(
                    probe_script(letter, symlink),
                    |probed: Result<Seq<char>, Seq<char>>| enter_probed_script(letter, probed),
                    later,
                    watch,
                    probing,
                    end,
                );
            }
        }
        lemma_obeys_bind(
            define_temporary_script(letter, symlink),
            |defined: Result<(), Seq<char>>| enter_bound_script(letter, symlink, defined),
            start,
            watch,
            defining,
            end,
        );
    }
}

proof fn lemma_bind_letter_obeys(request: MountRequest, how: Seq<char>, state: MountState)
    requires
        state.may_bind(request),
        !state.entered,
    ensures
        obeys(
            bind_letter_script(request, how),
            state,
            mount_watch(request),
            |later: MountState, done: Result<Seq<char>, Seq<char>>|
                !later.entered && (later.bound <==> done is Ok),
        ),
{
    let defining = |later: MountState, defined: Result<(), Seq<char>>|
        later == (MountState { bound: defined is Ok, ..state });
    lemma_define_obeys(request, state);
    lemma_obeys_bind(
        define_temporary_script(request.letter, request.symlink@),
        |defined: Result<(), Seq<char>>| report_script(request.letter, how, defined),
        state,
        mount_watch(request),
        defining,
        |later: MountState, done: Result<Seq<char>, Seq<char>>|
            !later.entered && (later.bound <==> done is Ok),
    );
}

/// How a mount may end: by the Mount Manager, with no binding left and entered exactly on success;
/// else bound exactly on success, and entered nowhere.
pub open spec fn mount_end(
    request: MountRequest,
    state: MountState,
    done: Result<Seq<char>, Seq<char>>,
) -> bool {
    if request.mode is MountManager {
        !state.bound && (state.entered <==> done is Ok)
    } else {
        !state.entered && (state.bound <==> done is Ok)
    }
}

proof fn lemma_automount_obeys(request: MountRequest, uuid: [u8; 16])
    requires
        request.mode is Ext2Automount,
        request.uuid == Some(uuid),
    ensures
        obeys(
            automount_script(request, uuid),
            MountState::start(),
            mount_watch(request),
            |later: MountState, done: Result<Seq<char>, Seq<char>>| mount_end(request, later, done),
        ),
{
    let watch = mount_watch(request);
    let end = |later: MountState, done: Result<Seq<char>, Seq<char>>|
        mount_end(request, later, done);
    let stored = MountState { recorded: true, bound: false, entered: false };
    let defining = |later: MountState, defined: Result<(), Seq<char>>|
        later == (MountState { bound: defined is Ok, ..stored });
    lemma_define_obeys(request, stored);
    assert forall|later: MountState, defined: Result<(), Seq<char>>| #[trigger]
        defining(later, defined) implies obeys(
        report_automount_script(request.letter, uuid, defined),
        later,
        watch,
        end,
    ) by {
        reveal_with_fuel(obeys, 2);
    }
    lemma_obeys_bind(
        define_temporary_script(request.letter, request.symlink@),
        |defined: Result<(), Seq<char>>| report_automount_script(request.letter, uuid, defined),
        stored,
        watch,
        defining,
        end,
    );
    let script = automount_script(request, uuid);
    let next = script->Ask_1;
    assert forall|reply: Reply| script->Ask_0.fits(reply) implies obeys(
        #[trigger] next(reply),
        (watch.step)(MountState::start(), script->Ask_0, reply),
        watch,
        end,
    ) by {
        if reply->Status_0 is Ok {
            assert((watch.step)(MountState::start(), script->Ask_0, reply) == stored);
        }
    }
}

proof fn lemma_mount_obeys(request: MountRequest)
    ensures
        obeys(
            mount_volume_script(request),
            MountState::start(),
            mount_watch(request),
            |later: MountState, done: Result<Seq<char>, Seq<char>>| mount_end(request, later, done),
        ),
{
    let watch = mount_watch(request);
    let start = MountState::start();
    let end = |later: MountState, done: Result<Seq<char>, Seq<char>>|
        mount_end(request, later, done);
    let binding = |later: MountState, done: Result<Seq<char>, Seq<char>>|
        !later.entered && (later.bound <==> done is Ok);
    match request.mode {
        MountMode::Temporary => {
            let how = ": temporary via DefineDosDevice (lost after reboot)"@;
            lemma_bind_letter_obeys(request, how, start);
            lemma_obeys_weaken(bind_letter_script(request, how), start, watch, binding, end);
        },
        MountMode::MountManager => {
            lemma_assign_obeys(request);
            lemma_obeys_bind(
                assign_via_mount_manager_script(
                    request.letter,
                    request.symlink@,
                    request.win32_volume_name@,
                ),
                |assigned: Result<(), Seq<char>>|
                    report_script(
                        request.letter,
                        ": permanent via Mount Manager (SetVolumeMountPoint)"@,
                        assigned,
                    ),
                start,
                watch,
                |later: MountState, done: Result<(), Seq<char>>|
                    !later.bound && (later.entered <==> done is Ok),
                end,
            );
        },
        MountMode::PermanentRegistry => {
            let how = ": Session Manager DOS Devices (registry; immediate DefineDosDevice bind)"@;
            let written = MountState { recorded: true, bound: false, entered: false };
            lemma_bind_letter_obeys(request, how, written);
            lemma_obeys_weaken(bind_letter_script(request, how), written, watch, binding, end);
            let script = mount_volume_script(request);
            let next = script->Ask_1;
            assert forall|reply: Reply| script->Ask_0.fits(reply) implies obeys(
                #[trigger] next(reply),
                (watch.step)(start, script->Ask_0, reply),
                watch,
                end,
            ) by {
                if reply->Status_0 is Ok {
                    assert((watch.step)(start, script->Ask_0, reply) == written);
                }
            }
        },
        MountMode::Ext2Automount => {
            if request.uuid is Some {
                lemma_automount_obeys(request, request.uuid->0);
            }
        },
    }
}

/// Each call of a mount is in order for the request, given what the calls before it have led to.
pub proof fn law_calls_are_in_order(request: MountRequest, replies: Seq<Reply>)
    ensures
        forall|i: int|
            0 <= i < calls(mount_volume_script(request), replies, 0).len() ==> mount_state(
                request,
                replies,
                i as nat,
            ).may(request, #[trigger] calls(mount_volume_script(request), replies, 0)[i]),
{
    lemma_mount_obeys(request);
    lemma_obeys(
        mount_volume_script(request),
        MountState::start(),
        mount_watch(request),
        |later: MountState, done: Result<Seq<char>, Seq<char>>| mount_end(request, later, done),
        replies,
        0,
    );
}

/// The four ways to keep a letter do not mix. Only one of them writes to the Session Manager's DOS
/// devices, only one stores an automount entry and only one turns to the Mount Manager; a temporary
/// mount does nothing but bind the letter as a DOS device.
pub proof fn law_modes_do_not_mix(request: MountRequest, replies: Seq<Reply>)
    ensures
        forall|i: int|
            0 <= i < calls(mount_volume_script(request), replies, 0).len()
                ==> match #[trigger] calls(
                mount_volume_script(request),
                replies,
                0,
            )[i] {
                CallView::IsProcessElevated => true,
                CallView::DefineLocal { letter, target } => letter == request.letter && target
                    == request.symlink@,
                CallView::ServiceDefine { drive, target } => drive == request.letter as u8
                    && target == request.symlink@,
                CallView::SetRegistry { .. } => request.mode is PermanentRegistry,
                CallView::StoreAutomount { .. } => request.mode is Ext2Automount,
                CallView::FormatUuid { .. } => request.mode is Ext2Automount,
                CallView::SetMountPoint { .. } => request.mode is MountManager,
                CallView::VolumeName { .. } => request.mode is MountManager,
                CallView::RemoveLocal { .. } => request.mode is MountManager,
                CallView::QueryDosDevice { .. } => request.mode is MountManager,
                _ => false,
            },
{
    law_calls_are_in_order(request, replies);
}

/// A mount that the Session Manager's DOS devices are to keep writes them first, and goes on to
/// bind the letter only where that has succeeded; where it has failed, the mount ends with the
/// reason.
pub proof fn law_registry_comes_before_the_binding(request: MountRequest, replies: Seq<Reply>)
    requires
        request.mode is PermanentRegistry,
    ensures
        calls(mount_volume_script(request), replies, 0)[0] == (CallView::SetRegistry {
            letter: request.letter,
            target: request.symlink@,
        }),
        calls(mount_volume_script(request), replies, 0).len() > 1 ==> replies[0]->Status_0 is Ok,
        replies.len() > 0 && replies[0] is Status && replies[0]->Status_0 is Err ==> outcome(
            mount_volume_script(request),
            replies,
            0,
        ) == Outcome::<Result<Seq<char>, Seq<char>>>::Ended(
            Err(replies[0]->Status_0->Err_0@),
            1,
        ),
{
    reveal_with_fuel(calls, 2);
    reveal_with_fuel(outcome, 2);
}

/// A mount by an automount entry stores the entry first, and goes on to bind the letter only where
/// that has succeeded; where it has failed, the mount ends with the reason.
pub proof fn law_automount_entry_comes_before_the_binding(
    request: MountRequest,
    replies: Seq<Reply>,
)
    requires
        request.mode is Ext2Automount,
        request.uuid is Some,
    ensures
        calls(mount_volume_script(request), replies, 0)[0] == (CallView::StoreAutomount {
            uuid: request.uuid->0,
            letter: request.letter,
            codepage: request.codepage@,
            readonly: request.readonly,
        }),
        calls(mount_volume_script(request), replies, 0).len() > 1 ==> replies[0]->Status_0 is Ok,
        replies.len() > 0 && replies[0] is Status && replies[0]->Status_0 is Err ==> outcome(
            mount_volume_script(request),
            replies,
            0,
        ) == Outcome::<Result<Seq<char>, Seq<char>>>::Ended(
            Err(replies[0]->Status_0->Err_0@),
            1,
        ),
{
    reveal_with_fuel(calls, 2);
    reveal_with_fuel(outcome, 2);
}

/// A mount by an automount entry needs the UUID of an EXT volume: without one it is refused, and no
/// call is made.
pub proof fn law_automount_needs_a_uuid(request: MountRequest, replies: Seq<Reply>)
    requires
        request.mode is Ext2Automount,
        request.uuid is None,
    ensures
        calls(mount_volume_script(request), replies, 0).len() == 0,
        outcome(mount_volume_script(request), replies, 0) == Outcome::<
            Result<Seq<char>, Seq<char>>,
        >::Ended(
            Err("Ext2Fsd automount needs an EXT volume UUID (select an EXT2/3/4 volume)"@),
            0,
        ),
{
}

/// A mount by the Mount Manager succeeds exactly where the volume was entered there, and leaves no
/// DOS device behind that it has not tried to take back. Any other mount succeeds exactly where the
/// letter was bound.
pub proof fn law_mounted_exactly_when_it_says_so(request: MountRequest, replies: Seq<Reply>)
    ensures
        outcome(mount_volume_script(request), replies, 0) matches Outcome::Ended(done, stop)
            ==> mount_end(request, mount_state(request, replies, stop), done),
{
    lemma_mount_obeys(request);
    lemma_obeys(
        mount_volume_script(request),
        MountState::start(),
        mount_watch(request),
        |later: MountState, done: Result<Seq<char>, Seq<char>>| mount_end(request, later, done),
        replies,
        0,
    );
    law_one_reply_for_each_call(mount_volume_script(request), replies, 0);
}

/// A letter is bound from this process only where it is elevated, and by the drive service only
/// where it is not or where binding it from this process has failed.
pub proof fn law_local_binding_comes_first(
    letter: char,
    symlink: Seq<char>,
    replies: Seq<Reply>,
    at: nat,
)
    ensures
        ({
            let made = calls(define_temporary_script(letter, symlink), replies, at);
            let local = CallView::DefineLocal { letter, target: symlink };
            let service = CallView::ServiceDefine { drive: letter as u8, target: symlink };
            ||| made == seq![CallView::IsProcessElevated]
            ||| made == seq![CallView::IsProcessElevated, service] && !replies[at as int]->Flag_0
            ||| made == seq![CallView::IsProcessElevated, local] && replies[at as int]->Flag_0
            ||| made == seq![CallView::IsProcessElevated, local, service]
                && replies[at as int]->Flag_0 && !replies[at as int + 1]->Flag_0
        }),
{
    reveal_with_fuel(calls, 4);
    let made = calls(define_temporary_script(letter, symlink), replies, at);
    let local = CallView::DefineLocal { letter, target: symlink };
    let service = CallView::ServiceDefine { drive: letter as u8, target: symlink };
    if at < replies.len() && replies[at as int] is Flag {
        if replies[at as int]->Flag_0 {
            if at + 1 < replies.len() && replies[at as int + 1] is Flag
                && !replies[at as int + 1]->Flag_0 {
                assert(made == seq![CallView::IsProcessElevated, local, service]);
            } else {
                assert(made == seq![CallView::IsProcessElevated, local]);
            }
        } else {
            assert(made == seq![CallView::IsProcessElevated, service]);
        }
    }
}

/// Binding a letter succeeds exactly where the elevated process has bound it or the drive service
/// has.
pub proof fn law_bound_by_the_process_or_by_the_service(
    letter: char,
    symlink: Seq<char>,
    replies: Seq<Reply>,
    at: nat,
)
    ensures
        outcome(define_temporary_script(letter, symlink), replies, at) matches Outcome::Ended(
            Ok(_),
            _,
        ) <==> {
            ||| at + 1 < replies.len() && replies[at as int] == Reply::Flag(true)
                && replies[at as int + 1]
                == Reply::Flag(true)
            ||| at + 1 < replies.len() && replies[at as int] == Reply::Flag(false)
                && replies[at as int + 1] == Reply::Service(Ok(true))
            ||| at + 2 < replies.len() && replies[at as int] == Reply::Flag(true)
                && replies[at as int + 1]
                == Reply::Flag(false) && replies[at as int + 2] == Reply::Service(Ok(true))
        },
{
    reveal_with_fuel(outcome, 4);
}

/// A mount ends after at most eight calls.
pub proof fn law_a_mount_ends(request: MountRequest, replies: Seq<Reply>)
    ensures
        calls(mount_volume_script(request), replies, 0).len() <= 8,
{
    let letter = request.letter;
    let symlink = request.symlink@;
    let define = define_temporary_script(letter, symlink);
    assert(ends_within(define, 3)) by {
        reveal_with_fuel(ends_within, 4);
    }
    reveal_with_fuel(ends_within, 2);
    match request.mode {
        MountMode::Temporary => {
            let how = ": temporary via DefineDosDevice (lost after reboot)"@;
            lemma_bind_letter_ends(request, how);
            lemma_ends_within(mount_volume_script(request), 3, replies, 0);
        },
        MountMode::MountManager => {
            lemma_assign_ends(letter, symlink, request.win32_volume_name@);
            lemma_ends_within_bind(
                assign_via_mount_manager_script(letter, symlink, request.win32_volume_name@),
                |assigned: Result<(), Seq<char>>|
                    report_script(
                        letter,
                        ": permanent via Mount Manager (SetVolumeMountPoint)"@,
                        assigned,
                    ),
                8,
                0,
            );
            lemma_ends_within(mount_volume_script(request), 8, replies, 0);
        },
        MountMode::PermanentRegistry => {
            let how = ": Session Manager DOS Devices (registry; immediate DefineDosDevice bind)"@;
            lemma_bind_letter_ends(request, how);
            lemma_ends_within(mount_volume_script(request), 4, replies, 0);
        },
        MountMode::Ext2Automount => {
            if request.uuid is Some {
                let uuid = request.uuid->0;
                lemma_ends_within_bind(
                    define,
                    |defined: Result<(), Seq<char>>|
                        report_automount_script(letter, uuid, defined),
                    3,
                    1,
                );
                lemma_ends_within(mount_volume_script(request), 5, replies, 0);
            }
        },
    }
}

proof fn lemma_bind_letter_ends(request: MountRequest, how: Seq<char>)
    ensures
        ends_within(bind_letter_script(request, how), 3),
{
    reveal_with_fuel(ends_within, 4);
    lemma_ends_within_bind(
        define_temporary_script(request.letter, request.symlink@),
        |defined: Result<(), Seq<char>>| report_script(request.letter, how, defined),
        3,
        0,
    );
}

proof fn lemma_assign_ends(letter: char, symlink: Seq<char>, name: Seq<char>)
    ensures
        ends_within(assign_via_mount_manager_script(letter, symlink, name), 8),
{
    reveal_with_fuel(ends_within, 5);
    if name.len() == 0 {
        let entering = |probed: Result<Seq<char>, Seq<char>>| enter_probed_script(letter, probed);
        lemma_ends_within_bind(probe_script(letter, symlink), entering, 4, 1);
        lemma_ends_within_bind(
            define_temporary_script(letter, symlink),
            |defined: Result<(), Seq<char>>| enter_bound_script(letter, symlink, defined),
            3,
            5,
        );
    }
}

/// What follows where the letter is bound.
spec fn bound_next(request: MountRequest) -> Step<Result<Seq<char>, Seq<char>>> {
    match request.mode {
        MountMode::Temporary => Step::End(
            Ok(
                "Mounted "@ + seq![request.letter]
                    + ": temporary via DefineDosDevice (lost after reboot)"@,
            ),
        ),
        MountMode::MountManager => Step::Call(
            CallView::VolumeName { mount_root: seq![request.letter, ':', '\\'] },
        ),
        MountMode::PermanentRegistry => Step::End(
            Ok(
                "Mounted "@ + seq![request.letter]
                    + ": Session Manager DOS Devices (registry; immediate DefineDosDevice bind)"@,
            ),
        ),
        MountMode::Ext2Automount => Step::Call(CallView::FormatUuid { uuid: request.uuid->0 }),
    }
}

/// What follows an attempt to bind the letter.
spec fn after_binding(request: MountRequest, defined: Result<(), Seq<char>>) -> Step<
    Result<Seq<char>, Seq<char>>,
> {
    match defined {
        Ok(_) => bound_next(request),
        Err(reason) => Step::End(Err(reason)),
    }
}

/// What follows the search for the name of the volume.
spec fn after_probing(request: MountRequest, probed: Result<Seq<char>, Seq<char>>) -> Step<
    Result<Seq<char>, Seq<char>>,
> {
    match probed {
        Ok(name) => Step::Call(
            CallView::SetMountPoint {
                mount_root: seq![request.letter, ':', '\\'],
                volume_name: name,
            },
        ),
        Err(reason) => Step::End(Err(reason)),
    }
}

/// What follows an attempt to enter the volume in the Mount Manager.
spec fn after_entering(request: MountRequest, done: Result<(), Seq<char>>) -> Step<
    Result<Seq<char>, Seq<char>>,
> {
    match done {
        Ok(_) => Step::End(
            Ok(
                "Mounted "@ + seq![request.letter]
                    + ": permanent via Mount Manager (SetVolumeMountPoint)"@,
            ),
        ),
        Err(reason) => Step::End(Err(reason)),
    }
}

/// What a mount does first.
spec fn mount_first(request: MountRequest) -> Step<Result<Seq<char>, Seq<char>>> {
    let name = request.win32_volume_name@;
    match request.mode {
        MountMode::Temporary => Step::Call(CallView::IsProcessElevated),
        MountMode::MountManager => if name.len() == 0 {
            Step::Call(CallView::IsProcessElevated)
        } else {
            Step::Call(
                CallView::SetMountPoint {
                    mount_root: seq![request.letter, ':', '\\'],
                    volume_name: if name.last() == '\\' {
                        name
                    } else {
                        name.push('\\')
                    },
                },
            )
        },
        MountMode::PermanentRegistry => Step::Call(
            CallView::SetRegistry { letter: request.letter, target: request.symlink@ },
        ),
        MountMode::Ext2Automount => match request.uuid {
            Some(uuid) => Step::Call(
                CallView::StoreAutomount {
                    uuid,
                    letter: request.letter,
                    codepage: request.codepage@,
                    readonly: request.readonly,
                },
            ),
            None => Step::End(
                Err("Ext2Fsd automount needs an EXT volume UUID (select an EXT2/3/4 volume)"@),
            ),
        },
    }
}

/// What a mount does next after the calls so far and their replies.
spec fn mount_next(request: MountRequest, before: Seq<Exchange>) -> Step<
    Result<Seq<char>, Seq<char>>,
> {
    let letter = request.letter;
    let target = request.symlink@;
    let mount_root = seq![letter, ':', '\\'];
    let count = before.len();
    let last = before[count - 1];
    let define = Step::Call(CallView::ServiceDefine { drive: letter as u8, target });
    if count == 0 {
        mount_first(request)
    } else {
        match last.call {
            CallView::SetRegistry { .. } => match last.reply->Status_0 {
                Ok(_) => Step::Call(CallView::IsProcessElevated),
                Err(reason) => Step::End(Err(reason@)),
            },
            CallView::StoreAutomount { .. } => match last.reply->Status_0 {
                Ok(_) => Step::Call(CallView::IsProcessElevated),
                Err(reason) => Step::End(Err(reason@)),
            },
            CallView::IsProcessElevated => if last.reply->Flag_0 {
                Step::Call(CallView::DefineLocal { letter, target })
            } else {
                define
            },
            CallView::DefineLocal { .. } => if last.reply->Flag_0 {
                bound_next(request)
            } else {
                define
            },
            CallView::ServiceDefine { .. } => match last.reply->Service_0 {
                Ok(true) => bound_next(request),
                Ok(false) => Step::End(
                    Err("Failed to assign new drive letter "@ + seq![letter, ':']),
                ),
                Err(err) => Step::End(
                    Err("Ext2Fsd service is not started.\n(Ext2Srv pipe: "@ + err@ + seq![')']),
                ),
            },
            CallView::FormatUuid { .. } => Step::End(
                Ok(
                    "Mounted "@ + seq![letter] + (": Ext2Fsd automount saved under Volumes\\"@
                        + last.reply->Text_0@ + " (persists; remounted on refresh)"@),
                ),
            ),
            CallView::VolumeName { .. } => Step::Call(CallView::RemoveLocal { letter, target }),
            CallView::RemoveLocal { .. } => if before[count - 2].call is VolumeName {
                match before[count - 2].reply->Name_0 {
                    Err(reason) => Step::End(Err(reason@)),
                    Ok(_) => Step::Call(CallView::QueryDosDevice { letter }),
                }
            } else {
                Step::Call(
                    CallView::SetMountPoint {
                        mount_root,
                        volume_name: before[count - 4].reply->Name_0->Ok_0@,
                    },
                )
            },
            CallView::QueryDosDevice { .. } => if last.reply->Target_0 is None {
                Step::Call(
                    CallView::SetMountPoint {
                        mount_root,
                        volume_name: before[count - 3].reply->Name_0->Ok_0@,
                    },
                )
            } else {
                Step::Call(CallView::RemoveLocal { letter, target })
            },
            _ => match last.reply->Status_0 {
                Err(reason) => Step::End(Err(reason@)),
                Ok(_) => Step::End(
                    Ok(
                        "Mounted "@ + seq![letter]
                            + ": permanent via Mount Manager (SetVolumeMountPoint)"@,
                    ),
                ),
            },
        }
    }
}

spec fn mount_rule(request: MountRequest) -> spec_fn(
    Seq<Exchange>,
    Step<Result<Seq<char>, Seq<char>>>,
) -> bool {
    |before: Seq<Exchange>, step: Step<Result<Seq<char>, Seq<char>>>|
        step == mount_next(request, before)
}

proof fn lemma_define_rule(request: MountRequest, before: Seq<Exchange>)
    requires
        mount_next(request, before) == Step::<Result<Seq<char>, Seq<char>>>::Call(
            CallView::IsProcessElevated,
        ),
    ensures
        obeys(
            define_temporary_script(request.letter, request.symlink@),
            before,
            rule_watch(mount_rule(request)),
            |later: Seq<Exchange>, defined: Result<(), Seq<char>>|
                mount_next(request, later) == after_binding(request, defined),
        ),
{
    let letter = request.letter;
    assert("Failed to assign new drive letter "@ + seq![letter, ':']
        == "Failed to assign new drive letter "@.push(letter).push(':'));
    assert forall|text: Seq<char>| text + seq![')'] == #[trigger] text.push(')') by {}
    reveal_with_fuel(obeys, 4);
}

proof fn lemma_set_rule(request: MountRequest, name: Seq<char>, before: Seq<Exchange>)
    requires
        mount_next(request, before) == Step::<Result<Seq<char>, Seq<char>>>::Call(
            CallView::SetMountPoint { mount_root: drive_root(request.letter), volume_name: name },
        ),
    ensures
        obeys(
            set_mount_point_script(request.letter, name),
            before,
            rule_watch(mount_rule(request)),
            |later: Seq<Exchange>, done: Result<(), Seq<char>>|
                mount_next(request, later) == after_entering(request, done),
        ),
{
    reveal_with_fuel(obeys, 2);
}

proof fn lemma_probe_rule(request: MountRequest, before: Seq<Exchange>)
    requires
        mount_next(request, before) == Step::<Result<Seq<char>, Seq<char>>>::Call(
            CallView::VolumeName { mount_root: drive_root(request.letter) },
        ),
    ensures
        obeys(
            probe_script(request.letter, request.symlink@),
            before,
            rule_watch(mount_rule(request)),
            |later: Seq<Exchange>, probed: Result<Seq<char>, Seq<char>>|
                mount_next(request, later) == after_probing(request, probed),
        ),
{
    reveal_with_fuel(obeys, 5);
}

proof fn lemma_assign_rule(request: MountRequest)
    requires
        request.mode is MountManager,
    ensures
        obeys(
            assign_via_mount_manager_script(
                request.letter,
                request.symlink@,
                request.win32_volume_name@,
            ),
            Seq::<Exchange>::empty(),
            rule_watch(mount_rule(request)),
            |later: Seq<Exchange>, done: Result<(), Seq<char>>|
                mount_next(request, later) == after_entering(request, done),
        ),
{
    let letter = request.letter;
    let symlink = request.symlink@;
    let start = Seq::<Exchange>::empty();
    let watch = rule_watch(mount_rule(request));
    let end = |later: Seq<Exchange>, done: Result<(), Seq<char>>|
        mount_next(request, later) == after_entering(request, done);
    if request.win32_volume_name@.len() > 0 {
        lemma_set_rule(request, crate::mount::closed_name(request.win32_volume_name@), start);
    } else {
        let defining = |later: Seq<Exchange>, defined: Result<(), Seq<char>>|
            mount_next(request, later) == after_binding(request, defined);
        let probing = |later: Seq<Exchange>, probed: Result<Seq<char>, Seq<char>>|
            mount_next(request, later) == after_probing(request, probed);
        lemma_define_rule(request, start);
        assert forall|later: Seq<Exchange>, defined: Result<(), Seq<char>>| #[trigger]
            defining(later, defined) implies obeys(
            enter_bound_script(letter, symlink, defined),
            later,
            watch,
            end,
        ) by {
            if defined is Ok {
                lemma_probe_rule(request, later);
                assert forall|after: Seq<Exchange>, probed: Result<Seq<char>, Seq<char>>| #[trigger]
                    probing(after, probed) implies obeys(
                    enter_probed_script(letter, probed),
                    after,
                    watch,
                    end,
                ) by {
                    if probed is Ok {
                        lemma_set_rule(request, probed->Ok_0, after);
                    }
                }
                lemma_obeys_bind(
                    probe_script(letter, symlink),
                    |probed: Result<Seq<char>, Seq<char>>| enter_probed_script(letter, probed),
                    later,
                    watch,
                    probing,
                    end,
                );
            }
        }
        lemma_obeys_bind(
            define_temporary_script(letter, symlink),
            |defined: Result<(), Seq<char>>| enter_bound_script(letter, symlink, defined),
            start,
            watch,
            defining,
            end,
        );
    }
}

proof fn lemma_bind_letter_rule(request: MountRequest, how: Seq<char>, before: Seq<Exchange>)
    requires
        mount_next(request, before) == Step::<Result<Seq<char>, Seq<char>>>::Call(
            CallView::IsProcessElevated,
        ),
        bound_next(request) == Step::<Result<Seq<char>, Seq<char>>>::End(
            Ok("Mounted "@ + seq![request.letter] + how),
        ),
    ensures
        obeys(
            bind_letter_script(request, how),
            before,
            rule_watch(mount_rule(request)),
            rule_end(mount_rule(request)),
        ),
{
    lemma_define_rule(request, before);
    assert("Mounted "@ + seq![request.letter] == "Mounted "@.push(request.letter));
    lemma_obeys_bind(
        define_temporary_script(request.letter, request.symlink@),
        |defined: Result<(), Seq<char>>| report_script(request.letter, how, defined),
        before,
        rule_watch(mount_rule(request)),
        |later: Seq<Exchange>, defined: Result<(), Seq<char>>|
            mount_next(request, later) == after_binding(request, defined),
        rule_end(mount_rule(request)),
    );
}

proof fn lemma_automount_rule(request: MountRequest, uuid: [u8; 16])
    requires
        request.mode is Ext2Automount,
        request.uuid == Some(uuid),
    ensures
        obeys(
            automount_script(request, uuid),
            Seq::<Exchange>::empty(),
            rule_watch(mount_rule(request)),
            rule_end(mount_rule(request)),
        ),
{
    let letter = request.letter;
    let watch = rule_watch(mount_rule(request));
    let end = rule_end(mount_rule(request));
    let start = Seq::<Exchange>::empty();
    let script = automount_script(request, uuid);
    let next = script->Ask_1;
    let onward = |defined: Result<(), Seq<char>>| report_automount_script(letter, uuid, defined);
    let defining = |later: Seq<Exchange>, defined: Result<(), Seq<char>>|
        mount_next(request, later) == after_binding(request, defined);
    assert("Mounted "@ + seq![letter] == "Mounted "@.push(letter));
    assert forall|later: Seq<Exchange>, defined: Result<(), Seq<char>>| #[trigger]
        defining(later, defined) implies obeys(
        report_automount_script(letter, uuid, defined),
        later,
        watch,
        end,
    ) by {
        reveal_with_fuel(obeys, 2);
    }
    assert forall|reply: Reply| script->Ask_0.fits(reply) implies obeys(
        #[trigger] next(reply),
        (watch.step)(start, script->Ask_0, reply),
        watch,
        end,
    ) by {
        if reply->Status_0 is Ok {
            let stored = (watch.step)(start, script->Ask_0, reply);
            lemma_define_rule(request, stored);
            lemma_obeys_bind(
                define_temporary_script(letter, request.symlink@),
                onward,
                stored,
                watch,
                defining,
                end,
            );
        }
    }
}

proof fn lemma_mount_rule(request: MountRequest)
    ensures
        obeys(
            mount_volume_script(request),
            Seq::<Exchange>::empty(),
            rule_watch(mount_rule(request)),
            rule_end(mount_rule(request)),
        ),
{
    let watch = rule_watch(mount_rule(request));
    let end = rule_end(mount_rule(request));
    let start = Seq::<Exchange>::empty();
    match request.mode {
        MountMode::Temporary => {
            lemma_bind_letter_rule(
                request,
                ": temporary via DefineDosDevice (lost after reboot)"@,
                start,
            );
        },
        MountMode::MountManager => {
            lemma_assign_rule(request);
            assert("Mounted "@ + seq![request.letter] == "Mounted "@.push(request.letter));
            lemma_obeys_bind(
                assign_via_mount_manager_script(
                    request.letter,
                    request.symlink@,
                    request.win32_volume_name@,
                ),
                |assigned: Result<(), Seq<char>>|
                    report_script(
                        request.letter,
                        ": permanent via Mount Manager (SetVolumeMountPoint)"@,
                        assigned,
                    ),
                start,
                watch,
                |later: Seq<Exchange>, done: Result<(), Seq<char>>|
                    mount_next(request, later) == after_entering(request, done),
                end,
            );
        },
        MountMode::PermanentRegistry => {
            let script = mount_volume_script(request);
            let next = script->Ask_1;
            assert forall|reply: Reply| script->Ask_0.fits(reply) implies obeys(
                #[trigger] next(reply),
                (watch.step)(start, script->Ask_0, reply),
                watch,
                end,
            ) by {
                if reply->Status_0 is Ok {
                    lemma_bind_letter_rule(
                        request,
                        ": Session Manager DOS Devices (registry; immediate DefineDosDevice bind)"@,
                        (watch.step)(start, script->Ask_0, reply),
                    );
                }
            }
        },
        MountMode::Ext2Automount => {
            if request.uuid is Some {
                lemma_automount_rule(request, request.uuid->0);
            }
        },
    }
}

proof fn lemma_mount_step(request: MountRequest, replies: Seq<Reply>, count: int)
    requires
        count == 0 || answered(mount_volume_script(request), replies, 0, count - 1),
    ensures
        step_after(mount_volume_script(request), replies, 0, count) == mount_next(
            request,
            past(mount_volume_script(request), replies, 0, count),
        ),
{
    lemma_mount_rule(request);
    lemma_rule(mount_volume_script(request), mount_rule(request), replies, 0, count);
}

/// What a mount does first. A temporary mount asks at once whether this process is elevated. A
/// mount by the Mount Manager enters a volume whose name is known under the root directory of the
/// letter, by that name with one backslash put behind it where there is none at its end; where the
/// name is not known, it too begins with the question for elevation. The other two record the
/// letter.
pub proof fn law_a_mount_begins_as_its_mode_says(request: MountRequest, replies: Seq<Reply>)
    ensures
        request.mode is Temporary ==> step_after(mount_volume_script(request), replies, 0, 0)
            == Step::<Result<Seq<char>, Seq<char>>>::Call(CallView::IsProcessElevated),
        request.mode is MountManager && request.win32_volume_name@.len() == 0
            ==> step_after(mount_volume_script(request), replies, 0, 0)
            == Step::<Result<Seq<char>, Seq<char>>>::Call(CallView::IsProcessElevated),
        request.mode is MountManager && request.win32_volume_name@.len() > 0 ==> {
            &&& step_after(mount_volume_script(request), replies, 0, 0) matches Step::Call(call)
            &&& call matches CallView::SetMountPoint { mount_root, volume_name }
            &&& mount_root == seq![request.letter, ':', '\\']
            &&& volume_name.last() == '\\'
            &&& request.win32_volume_name@.last() == '\\' ==> volume_name
                == request.win32_volume_name@
            &&& request.win32_volume_name@.last() != '\\' ==> volume_name.drop_last()
                == request.win32_volume_name@ && volume_name.len()
                == request.win32_volume_name@.len() + 1
        },
        request.mode is PermanentRegistry
            ==> step_after(mount_volume_script(request), replies, 0, 0)
            == Step::<Result<Seq<char>, Seq<char>>>::Call(
            CallView::SetRegistry { letter: request.letter, target: request.symlink@ },
        ),
        request.mode is Ext2Automount && request.uuid is Some
            ==> step_after(mount_volume_script(request), replies, 0, 0)
            == Step::<Result<Seq<char>, Seq<char>>>::Call(
            CallView::StoreAutomount {
                uuid: request.uuid->0,
                letter: request.letter,
                codepage: request.codepage@,
                readonly: request.readonly,
            },
        ),
        request.mode is Ext2Automount && request.uuid is None
            ==> step_after(mount_volume_script(request), replies, 0, 0)
            == Step::<Result<Seq<char>, Seq<char>>>::End(
            Err("Ext2Fsd automount needs an EXT volume UUID (select an EXT2/3/4 volume)"@),
        ),
{
    lemma_mount_step(request, replies, 0);
    let name = request.win32_volume_name@;
    assert(name.push('\\').drop_last() == name);
}

/// Wherever a mount hands a root directory to the system, it is that of the letter of the request:
/// three characters, the letter itself, a colon and a backslash.
pub proof fn law_the_root_is_that_of_the_letter(request: MountRequest, replies: Seq<Reply>, i: int)
    requires
        0 <= i < calls(mount_volume_script(request), replies, 0).len(),
    ensures
        match calls(mount_volume_script(request), replies, 0)[i] {
            CallView::SetMountPoint { mount_root, .. } => mount_root.len() == 3 && mount_root[0]
                == request.letter && mount_root[1] == ':' && mount_root[2] == '\\',
            CallView::VolumeName { mount_root } => mount_root.len() == 3 && mount_root[0]
                == request.letter && mount_root[1] == ':' && mount_root[2] == '\\',
            CallView::DeleteMountPoint { .. } => false,
            _ => true,
        },
{
    law_calls_are_in_order(request, replies);
    assert(mount_state(request, replies, i as nat).may(
        request,
        calls(mount_volume_script(request), replies, 0)[i],
    ));
}

/// Mounts under different letters never enter a volume under the same root directory.
pub proof fn law_different_letters_have_different_roots(
    request: MountRequest,
    other: MountRequest,
    replies: Seq<Reply>,
    others: Seq<Reply>,
    i: int,
    j: int,
)
    requires
        request.letter != other.letter,
        0 <= i < calls(mount_volume_script(request), replies, 0).len(),
        0 <= j < calls(mount_volume_script(other), others, 0).len(),
        calls(mount_volume_script(request), replies, 0)[i] is SetMountPoint,
        calls(mount_volume_script(other), others, 0)[j] is SetMountPoint,
    ensures
        calls(mount_volume_script(request), replies, 0)[i]->SetMountPoint_mount_root != calls(
            mount_volume_script(other),
            others,
            0,
        )[j]->SetMountPoint_mount_root,
{
    law_the_root_is_that_of_the_letter(request, replies, i);
    law_the_root_is_that_of_the_letter(other, others, j);
}

/// Once the letter is recorded, in the registry or in the automount entry, the mount goes on to
/// bind it; where it could not be recorded, the mount ends with the reason.
pub proof fn law_a_recorded_letter_is_bound(request: MountRequest, replies: Seq<Reply>, i: int)
    requires
        answered(mount_volume_script(request), replies, 0, i),
        ({
            let call = calls(mount_volume_script(request), replies, 0)[i];
            call is SetRegistry || call is StoreAutomount
        }),
    ensures
        step_after(mount_volume_script(request), replies, 0, i + 1) == (match replies[i]->Status_0 {
            Ok(_) => Step::<Result<Seq<char>, Seq<char>>>::Call(CallView::IsProcessElevated),
            Err(reason) => Step::End(Err(reason@)),
        }),
{
    lemma_mount_step(request, replies, i + 1);
}

/// An elevated process binds the letter of the request to its symlink; one that is not elevated, or
/// that has failed, has the drive service do it.
pub proof fn law_the_letter_is_bound_here_or_by_the_service(
    request: MountRequest,
    replies: Seq<Reply>,
    i: int,
)
    requires
        answered(mount_volume_script(request), replies, 0, i),
    ensures
        calls(mount_volume_script(request), replies, 0)[i] is IsProcessElevated && replies[i]
            == Reply::Flag(true) ==> step_after(mount_volume_script(request), replies, 0, i + 1)
            == Step::<Result<Seq<char>, Seq<char>>>::Call(
            CallView::DefineLocal { letter: request.letter, target: request.symlink@ },
        ),
        calls(mount_volume_script(request), replies, 0)[i] is IsProcessElevated && replies[i]
            == Reply::Flag(false) ==> step_after(mount_volume_script(request), replies, 0, i + 1)
            == Step::<Result<Seq<char>, Seq<char>>>::Call(
            CallView::ServiceDefine { drive: request.letter as u8, target: request.symlink@ },
        ),
        calls(mount_volume_script(request), replies, 0)[i] is DefineLocal && replies[i]
            == Reply::Flag(false) ==> step_after(mount_volume_script(request), replies, 0, i + 1)
            == Step::<Result<Seq<char>, Seq<char>>>::Call(
            CallView::ServiceDefine { drive: request.letter as u8, target: request.symlink@ },
        ),
{
    lemma_mount_step(request, replies, i + 1);
}

/// Where the drive service does not bind the letter the mount ends: with an error that names the
/// letter, or, where the service was not reached, with one that gives the reason.
pub proof fn law_a_letter_that_is_not_bound_is_an_error(
    request: MountRequest,
    replies: Seq<Reply>,
    i: int,
)
    requires
        answered(mount_volume_script(request), replies, 0, i),
        calls(mount_volume_script(request), replies, 0)[i] is ServiceDefine,
    ensures
        replies[i] == Reply::Service(Ok(false))
            ==> step_after(mount_volume_script(request), replies, 0, i + 1)
            == Step::<Result<Seq<char>, Seq<char>>>::End(
            Err("Failed to assign new drive letter "@ + seq![request.letter, ':']),
        ),
        replies[i]->Service_0 is Err ==> step_after(mount_volume_script(request), replies, 0, i + 1)
            == Step::<Result<Seq<char>, Seq<char>>>::End(
            Err(
                "Ext2Fsd service is not started.\n(Ext2Srv pipe: "@
                    + replies[i]->Service_0->Err_0@ + seq![')'],
            ),
        ),
{
    lemma_mount_step(request, replies, i + 1);
}

/// Once the letter is bound, a temporary mount and one by the registry have succeeded, with a text
/// that names the letter and the way it is kept; an automount asks for the text of the UUID of the
/// request; and a mount by the Mount Manager asks for the name of the volume at the root directory.
pub proof fn law_what_follows_a_binding(request: MountRequest, replies: Seq<Reply>, i: int)
    requires
        answered(mount_volume_script(request), replies, 0, i),
        ({
            let call = calls(mount_volume_script(request), replies, 0)[i];
            ||| call is DefineLocal && replies[i] == Reply::Flag(true)
            ||| call is ServiceDefine && replies[i] == Reply::Service(Ok(true))
        }),
    ensures
        step_after(mount_volume_script(request), replies, 0, i + 1) == (match request.mode {
            MountMode::Temporary => Step::<Result<Seq<char>, Seq<char>>>::End(
                Ok(
                    "Mounted "@ + seq![request.letter]
                        + ": temporary via DefineDosDevice (lost after reboot)"@,
                ),
            ),
            MountMode::MountManager => Step::Call(
                CallView::VolumeName { mount_root: seq![request.letter, ':', '\\'] },
            ),
            MountMode::PermanentRegistry => Step::End(
                Ok(
                    "Mounted "@ + seq![request.letter]
                        + ": Session Manager DOS Devices (registry; immediate DefineDosDevice bind)"@,
                ),
            ),
            MountMode::Ext2Automount => Step::Call(CallView::FormatUuid { uuid: request.uuid->0 }),
        }),
{
    lemma_mount_step(request, replies, i + 1);
}

/// An automount that has succeeded says so with the letter and the text of the UUID.
pub proof fn law_an_automount_names_its_uuid(request: MountRequest, replies: Seq<Reply>, i: int)
    requires
        answered(mount_volume_script(request), replies, 0, i),
        calls(mount_volume_script(request), replies, 0)[i] is FormatUuid,
    ensures
        step_after(mount_volume_script(request), replies, 0, i + 1)
            == Step::<Result<Seq<char>, Seq<char>>>::End(
            Ok(
                "Mounted "@ + seq![request.letter] + ": Ext2Fsd automount saved under Volumes\\"@
                    + replies[i]->Text_0@ + " (persists; remounted on refresh)"@,
            ),
        ),
{
    lemma_mount_step(request, replies, i + 1);
    let head = "Mounted "@ + seq![request.letter];
    let saved = ": Ext2Fsd automount saved under Volumes\\"@;
    let kept = " (persists; remounted on refresh)"@;
    assert(head + (saved + replies[i]->Text_0@ + kept) == head + saved + replies[i]->Text_0@
        + kept);
}

/// The binding that was made to find the name of the volume is taken back, whatever came of the
/// question; where it is then still there, once more. A volume without a name ends the mount with
/// the reason; one with a name is entered in the Mount Manager by exactly that name.
pub proof fn law_a_probe_is_taken_back(request: MountRequest, replies: Seq<Reply>, i: int)
    requires
        answered(mount_volume_script(request), replies, 0, i),
        calls(mount_volume_script(request), replies, 0)[i] is VolumeName,
    ensures
        ({
            let take_back = Step::<Result<Seq<char>, Seq<char>>>::Call(
                CallView::RemoveLocal { letter: request.letter, target: request.symlink@ },
            );
            let enter = Step::<Result<Seq<char>, Seq<char>>>::Call(
                CallView::SetMountPoint {
                    mount_root: seq![request.letter, ':', '\\'],
                    volume_name: replies[i]->Name_0->Ok_0@,
                },
            );
            &&& step_after(mount_volume_script(request), replies, 0, i + 1) == take_back
            &&& answered(mount_volume_script(request), replies, 0, i + 1)
                ==> step_after(mount_volume_script(request), replies, 0, i + 2)
                == (match replies[i]->Name_0 {
                Err(reason) => Step::<Result<Seq<char>, Seq<char>>>::End(Err(reason@)),
                Ok(_) => Step::Call(CallView::QueryDosDevice { letter: request.letter }),
            })
            &&& replies[i]->Name_0 is Ok
                && answered(mount_volume_script(request), replies, 0, i + 2)
                ==> step_after(mount_volume_script(request), replies, 0, i + 3) == (match replies[i
                + 2]->Target_0 {
                None => enter,
                Some(_) => take_back,
            })
            &&& replies[i]->Name_0 is Ok
                && answered(mount_volume_script(request), replies, 0, i + 3)
                && replies[i + 2]->Target_0 is Some
                ==> step_after(mount_volume_script(request), replies, 0, i + 4) == enter
        }),
{
    let script = mount_volume_script(request);
    lemma_mount_step(request, replies, i + 1);
    if answered(script, replies, 0, i + 1) {
        lemma_mount_step(request, replies, i + 2);
    }
    if answered(script, replies, 0, i + 2) {
        lemma_answered(script, replies, 0, i + 2);
        assert(answered(script, replies, 0, i + 1));
        lemma_mount_step(request, replies, i + 2);
        lemma_mount_step(request, replies, i + 3);
    }
    if answered(script, replies, 0, i + 3) {
        lemma_answered(script, replies, 0, i + 3);
        assert(answered(script, replies, 0, i + 1));
        assert(answered(script, replies, 0, i + 2));
        lemma_mount_step(request, replies, i + 2);
        lemma_mount_step(request, replies, i + 3);
        lemma_mount_step(request, replies, i + 4);
    }
}

/// What the Mount Manager says of the volume that is entered is how the mount ends.
pub proof fn law_the_mount_manager_decides(request: MountRequest, replies: Seq<Reply>, i: int)
    requires
        answered(mount_volume_script(request), replies, 0, i),
        calls(mount_volume_script(request), replies, 0)[i] is SetMountPoint,
    ensures
        step_after(mount_volume_script(request), replies, 0, i + 1) == (match replies[i]->Status_0 {
            Ok(_) => Step::<Result<Seq<char>, Seq<char>>>::End(
                Ok(
                    "Mounted "@ + seq![request.letter]
                        + ": permanent via Mount Manager (SetVolumeMountPoint)"@,
                ),
            ),
            Err(reason) => Step::End(Err(reason@)),
        }),
{
    lemma_mount_step(request, replies, i + 1);
}

} // verus!
