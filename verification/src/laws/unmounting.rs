//! Laws of taking a drive letter away.

use vstd::prelude::*;

use crate::laws::mounting::{law_calls_are_in_order, mount_state};
use crate::mount::{drive_root, mount_volume_script, MountRequest};
use crate::protocol::{CallView, Reply};
use crate::script::{
    bind, calls, law_one_reply_for_each_call, lemma_outcome_from, outcome, Outcome,
};
use crate::trace::{
    answered, ends_within, lemma_answered, lemma_ended, lemma_ends_within, lemma_ends_within_bind,
    lemma_obeys, lemma_obeys_bind, lemma_rule, obeys, past, rule_end, rule_watch, state_after,
        step_after,
    Exchange, Step, Watch,
};
use crate::unmount::{
    after_local_script, remove_local_script, unmount_letter_script,
};

verus! {

/// What the calls of an unmount have led to.
pub struct UnmountState {
    /// A removal was asked for and not refused.
    pub removing: bool,
    /// It was seen to work.
    pub removed: bool,
}

impl UnmountState {
    /// Before the first call.
    pub open spec fn start() -> UnmountState {
        UnmountState { removing: false, removed: false }
    }

    /// After a call and its reply.
    pub open spec fn step(self, call: CallView, reply: Reply) -> UnmountState {
        match call {
            CallView::RemoveLocal { .. } => UnmountState {
                removing: reply->Flag_0,
                removed: false,
            },
            CallView::ServiceQuery { .. } => UnmountState::start(),
            CallView::ServiceRemove { .. } => UnmountState {
                removing: reply->Service_0 is Ok,
                removed: reply->Service_0 is Ok && reply->Service_0->Ok_0,
            },
            CallView::QueryDosDevice { .. } => UnmountState {
                removed: self.removing && reply->Target_0 is None,
                ..self
            },
            _ => self,
        }
    }
}

/// Whether the call is one for this letter that an unmount may make.
pub open spec fn concerns(letter: char, call: CallView) -> bool {
    match call {
        CallView::ClearRegistry { letter: l } => l == letter,
        CallView::DeleteMountPoint { mount_root } => mount_root == drive_root(letter),
        CallView::IsProcessElevated => true,
        CallView::QueryDosDevice { letter: l } => l == letter,
        CallView::RemoveLocal { letter: l, target } => l == letter && target.len() > 0,
        CallView::ServiceQuery { drive } => drive == letter as u8,
        CallView::ServiceRemove { drive, target } => drive == letter as u8 && target.len() > 0,
        _ => false,
    }
}

/// The watch over an unmount.
pub open spec fn unmount_watch(letter: char) -> Watch<UnmountState> {
    Watch {
        step: |state: UnmountState, call: CallView, reply: Reply| state.step(call, reply),
        may: |state: UnmountState, call: CallView| concerns(letter, call),
    }
}

/// The state of an unmount after the first `count` of its calls.
pub open spec fn unmount_state(
    letter: char,
    hint: Seq<char>,
    replies: Seq<Reply>,
    count: nat,
) -> UnmountState {
    state_after(
        unmount_watch(letter),
        UnmountState::start(),
        calls(unmount_letter_script(letter, hint), replies, 0),
        replies,
        0,
        count,
    )
}

proof fn lemma_unmount_obeys(letter: char, hint: Seq<char>)
    ensures
        obeys(
            unmount_letter_script(letter, hint),
            UnmountState::start(),
            unmount_watch(letter),
            |later: UnmountState, done: Result<(), Seq<char>>| later.removed <==> done is Ok,
        ),
{
    let watch = unmount_watch(letter);
    let start = UnmountState::start();
    let local = |later: UnmountState, free: bool| later.removed <==> free;
    let end = |later: UnmountState, done: Result<(), Seq<char>>| later.removed <==> done is Ok;
    assert(obeys(remove_local_script(letter, hint), start, watch, local)) by {
        reveal_with_fuel(obeys, 5);
    }
    assert forall|later: UnmountState, free: bool| #[trigger] local(later, free) implies obeys(
        after_local_script(letter, hint, free),
        later,
        watch,
        end,
    ) by {
        reveal_with_fuel(obeys, 5);
    }
    lemma_obeys_bind(
        remove_local_script(letter, hint),
        |free: bool| after_local_script(letter, hint, free),
        start,
        watch,
        local,
        end,
    );
    reveal_with_fuel(obeys, 3);
}

/// An unmount concerns its own letter only, and asks for no removal without naming what the letter
/// is bound to.
pub proof fn law_unmount_concerns_its_letter_only(
    letter: char,
    hint: Seq<char>,
    replies: Seq<Reply>,
)
    ensures
        forall|i: int|
            0 <= i < calls(unmount_letter_script(letter, hint), replies, 0).len() ==> concerns(
                letter,
                #[trigger] calls(unmount_letter_script(letter, hint), replies, 0)[i],
            ),
{
    lemma_unmount_obeys(letter, hint);
    lemma_obeys(
        unmount_letter_script(letter, hint),
        UnmountState::start(),
        unmount_watch(letter),
        |later: UnmountState, done: Result<(), Seq<char>>| later.removed <==> done is Ok,
        replies,
        0,
    );
}

/// An unmount succeeds exactly where the last removal that it asked for was seen to work: the drive
/// service said so, or the letter was found not to be bound after it.
pub proof fn law_unmounted_exactly_when_it_says_so(
    letter: char,
    hint: Seq<char>,
    replies: Seq<Reply>,
)
    ensures
        outcome(unmount_letter_script(letter, hint), replies, 0) matches Outcome::Ended(done, stop)
            ==> (unmount_state(letter, hint, replies, stop).removed <==> done is Ok),
{
    lemma_unmount_obeys(letter, hint);
    lemma_obeys(
        unmount_letter_script(letter, hint),
        UnmountState::start(),
        unmount_watch(letter),
        |later: UnmountState, done: Result<(), Seq<char>>| later.removed <==> done is Ok,
        replies,
        0,
    );
    law_one_reply_for_each_call(unmount_letter_script(letter, hint), replies, 0);
}

/// An unmount always clears the registry entry first and the entry in the Mount Manager next.
pub proof fn law_unmount_clears_what_lasts(letter: char, hint: Seq<char>, replies: Seq<Reply>)
    ensures
        calls(unmount_letter_script(letter, hint), replies, 0)[0] == (CallView::ClearRegistry {
            letter,
        }),
        calls(unmount_letter_script(letter, hint), replies, 0).len() > 1 ==> calls(
            unmount_letter_script(letter, hint),
            replies,
            0,
        )[1] == (CallView::DeleteMountPoint { mount_root: drive_root(letter) }),
        outcome(unmount_letter_script(letter, hint), replies, 0) is Ended ==> calls(
            unmount_letter_script(letter, hint),
            replies,
            0,
        ).len() > 2,
{
    reveal_with_fuel(calls, 3);
    reveal_with_fuel(outcome, 3);
    let script = unmount_letter_script(letter, hint);
    if replies.len() > 1 && replies[0] is Status && replies[1] is Status {
        let rest = bind(
            remove_local_script(letter, hint),
            |free: bool| after_local_script(letter, hint, free),
        );
        assert(outcome(script, replies, 0) == outcome(rest, replies, 2));
        assert(calls(script, replies, 0) == seq![
            CallView::ClearRegistry { letter },
        ] + (seq![CallView::DeleteMountPoint { mount_root: drive_root(letter) }] + calls(
            rest,
            replies,
            2,
        )));
        assert(calls(rest, replies, 2).len() > 0);
    }
}

/// What a mount writes to the Session Manager's DOS devices or enters in the Mount Manager, an
/// unmount of the same letter takes out again.
pub proof fn law_unmount_takes_out_what_a_mount_has_entered(
    request: MountRequest,
    hint: Seq<char>,
    mounting: Seq<Reply>,
    unmounting: Seq<Reply>,
    i: int,
)
    requires
        0 <= i < calls(mount_volume_script(request), mounting, 0).len(),
        outcome(unmount_letter_script(request.letter, hint), unmounting, 0) is Ended,
    ensures
        ({
            let written = calls(mount_volume_script(request), mounting, 0)[i];
            let cleared = calls(unmount_letter_script(request.letter, hint), unmounting, 0);
            &&& written matches CallView::SetRegistry { letter, .. } ==> cleared.contains(
                CallView::ClearRegistry { letter },
            )
            &&& written matches CallView::SetMountPoint { mount_root, .. } ==> cleared.contains(
                CallView::DeleteMountPoint { mount_root },
            )
        }),
{
    law_calls_are_in_order(request, mounting);
    law_unmount_clears_what_lasts(request.letter, hint, unmounting);
    let cleared = calls(unmount_letter_script(request.letter, hint), unmounting, 0);
    assert(cleared.contains(cleared[0]));
    assert(cleared.contains(cleared[1]));
    assert(mount_state(request, mounting, i as nat).may(
        request,
        calls(mount_volume_script(request), mounting, 0)[i],
    ));
}

/// Whether the registry entry and the entry in the Mount Manager could be cleared does not matter
/// to how an unmount goes on and ends.
pub proof fn law_unmount_goes_on_when_clearing_fails(
    letter: char,
    hint: Seq<char>,
    replies: Seq<Reply>,
    cleared: Result<(), String>,
    deleted: Result<(), String>,
)
    requires
        replies.len() >= 2,
        replies[0] is Status,
        replies[1] is Status,
    ensures
        outcome(
            unmount_letter_script(letter, hint),
            replies.update(0, Reply::Status(cleared)).update(1, Reply::Status(deleted)),
            0,
        ) == outcome(unmount_letter_script(letter, hint), replies, 0),
{
    let others = replies.update(0, Reply::Status(cleared)).update(1, Reply::Status(deleted));
    let script = unmount_letter_script(letter, hint);
    let rest = bind(
        remove_local_script(letter, hint),
        |free: bool| after_local_script(letter, hint, free),
    );
    reveal_with_fuel(outcome, 3);
    assert(outcome(script, replies, 0) == outcome(rest, replies, 2));
    assert(outcome(script, others, 0) == outcome(rest, others, 2));
    lemma_outcome_from(rest, replies, others, 2);
}

/// An unmount ends after at most ten calls.
pub proof fn law_an_unmount_ends(letter: char, hint: Seq<char>, replies: Seq<Reply>)
    ensures
        calls(unmount_letter_script(letter, hint), replies, 0).len() <= 10,
{
    assert(ends_within(remove_local_script(letter, hint), 4)) by {
        reveal_with_fuel(ends_within, 5);
    }
    assert forall|free: bool| ends_within(#[trigger] after_local_script(letter, hint, free), 4) by {
        reveal_with_fuel(ends_within, 5);
    }
    let onward = |free: bool| after_local_script(letter, hint, free);
    assert forall|free: bool| ends_within(#[trigger] onward(free), 4) by {
        assert(ends_within(after_local_script(letter, hint, free), 4));
    }
    lemma_ends_within_bind(remove_local_script(letter, hint), onward, 4, 4);
    reveal_with_fuel(ends_within, 3);
    lemma_ends_within(unmount_letter_script(letter, hint), 10, replies, 0);
}

/// What an unmount does next after the calls so far and their replies.
spec fn unmount_next(letter: char, hint: Seq<char>, before: Seq<Exchange>) -> Step<
    Result<(), Seq<char>>,
> {
    let count = before.len();
    let failed = "Failed to remove drive letter "@.push(letter).push(':');
    let look = Step::Call(CallView::QueryDosDevice { letter });
    let inquire = Step::Call(CallView::ServiceQuery { drive: letter as u8 });
    let last = before[count - 1];
    if count == 0 {
        Step::Call(CallView::ClearRegistry { letter })
    } else if count == 1 {
        Step::Call(CallView::DeleteMountPoint { mount_root: seq![letter, ':', '\\'] })
    } else if count == 2 {
        Step::Call(CallView::IsProcessElevated)
    } else {
        match last.call {
            CallView::IsProcessElevated => if !last.reply->Flag_0 {
                inquire
            } else if hint.len() > 0 {
                Step::Call(CallView::RemoveLocal { letter, target: hint })
            } else {
                look
            },
            CallView::RemoveLocal { .. } => if last.reply->Flag_0 {
                look
            } else {
                inquire
            },
            CallView::ServiceQuery { .. } => match last.reply->Drive_0 {
                Err(err) => Step::End(Err(failed + "\nExt2Srv pipe: "@ + err@)),
                Ok(query) => if query is Some && query->0.result && query->0.symlink@.len() > 0 {
                    Step::Call(
                        CallView::ServiceRemove { drive: letter as u8, target: query->0.symlink@ },
                    )
                } else if hint.len() > 0 {
                    Step::Call(CallView::ServiceRemove { drive: letter as u8, target: hint })
                } else {
                    look
                },
            },
            CallView::ServiceRemove { .. } => match last.reply->Service_0 {
                Err(err) => Step::End(Err(failed.push('\n') + err@)),
                Ok(true) => Step::End(Ok(())),
                Ok(false) => look,
            },
            _ => {
                let bound = last.reply->Target_0;
                let known = bound is Some && bound->0@.len() > 0;
                match before[count - 2].call {
                    CallView::IsProcessElevated => if known {
                        Step::Call(CallView::RemoveLocal { letter, target: bound->0@ })
                    } else {
                        inquire
                    },
                    CallView::RemoveLocal { .. } => if bound is None {
                        Step::End(Ok(()))
                    } else {
                        inquire
                    },
                    CallView::ServiceQuery { .. } => if known {
                        Step::Call(
                            CallView::ServiceRemove { drive: letter as u8, target: bound->0@ },
                        )
                    } else {
                        Step::End(Err(failed))
                    },
                    _ => if bound is None {
                        Step::End(Ok(()))
                    } else {
                        Step::End(Err(failed))
                    },
                }
            },
        }
    }
}

proof fn lemma_unmount_rule(letter: char, hint: Seq<char>)
    ensures
        ({
            let rule = |before: Seq<Exchange>, step: Step<Result<(), Seq<char>>>|
                step == unmount_next(letter, hint, before);
            obeys(
                unmount_letter_script(letter, hint),
                Seq::<Exchange>::empty(),
                rule_watch(rule),
                rule_end(rule),
            )
        }),
{
    let rule = |before: Seq<Exchange>, step: Step<Result<(), Seq<char>>>|
        step == unmount_next(letter, hint, before);
    let watch = rule_watch(rule);
    let end = rule_end(rule);
    let between = |before: Seq<Exchange>, free: bool|
        {
            &&& before.len() > 2
            &&& free ==> rule(before, Step::End(Ok(())))
            &&& !free ==> rule(before, Step::Call(CallView::ServiceQuery { drive: letter as u8 }))
        };
    assert forall|before: Seq<Exchange>| before.len() == 2 implies #[trigger] obeys(
        remove_local_script(letter, hint),
        before,
        watch,
        between,
    ) by {
        reveal_with_fuel(obeys, 5);
    }
    assert forall|later: Seq<Exchange>, free: bool| #[trigger] between(later, free) implies obeys(
        after_local_script(letter, hint, free),
        later,
        watch,
        end,
    ) by {
        reveal_with_fuel(obeys, 5);
    }
    let onward = |free: bool| after_local_script(letter, hint, free);
    assert forall|before: Seq<Exchange>| before.len() == 2 implies #[trigger] obeys(
        bind(remove_local_script(letter, hint), onward),
        before,
        watch,
        end,
    ) by {
        assert(obeys(remove_local_script(letter, hint), before, watch, between));
        lemma_obeys_bind(remove_local_script(letter, hint), onward, before, watch, between, end);
    }
    let script = unmount_letter_script(letter, hint);
    let start = Seq::<Exchange>::empty();
    assert forall|cleared: Reply| script->Ask_0.fits(cleared) implies obeys(
        #[trigger] (script->Ask_1)(cleared),
        (watch.step)(start, script->Ask_0, cleared),
        watch,
        end,
    ) by {
        let second = (script->Ask_1)(cleared);
        let before = (watch.step)(start, script->Ask_0, cleared);
        assert forall|deleted: Reply| second->Ask_0.fits(deleted) implies obeys(
            #[trigger] (second->Ask_1)(deleted),
            (watch.step)(before, second->Ask_0, deleted),
            watch,
            end,
        ) by {
            let both = (watch.step)(before, second->Ask_0, deleted);
            assert(both.len() == 2);
            assert(obeys(bind(remove_local_script(letter, hint), onward), both, watch, end));
        }
    }
}

proof fn lemma_unmount_step(letter: char, hint: Seq<char>, replies: Seq<Reply>, count: int)
    requires
        count == 0 || answered(unmount_letter_script(letter, hint), replies, 0, count - 1),
    ensures
        step_after(unmount_letter_script(letter, hint), replies, 0, count) == unmount_next(
            letter,
            hint,
            past(unmount_letter_script(letter, hint), replies, 0, count),
        ),
{
    lemma_unmount_rule(letter, hint);
    lemma_rule(
        unmount_letter_script(letter, hint),
        |before: Seq<Exchange>, step: Step<Result<(), Seq<char>>>|
            step == unmount_next(letter, hint, before),
        replies,
        0,
        count,
    );
}

/// An unmount begins with the letter's entry in the registry; then the Mount Manager is to give up
/// the root directory of that very letter, three characters long; then comes the question whether
/// this process is elevated.
pub proof fn law_unmount_begins_with_what_lasts(letter: char, hint: Seq<char>, replies: Seq<Reply>)
    ensures
        step_after(unmount_letter_script(letter, hint), replies, 0, 0) == Step::<
            Result<(), Seq<char>>,
        >::Call(CallView::ClearRegistry { letter }),
        answered(unmount_letter_script(letter, hint), replies, 0, 0) ==> step_after(
            unmount_letter_script(letter, hint),
            replies,
            0,
            1,
        ) == Step::<Result<(), Seq<char>>>::Call(
            CallView::DeleteMountPoint { mount_root: seq![letter, ':', '\\'] },
        ),
        answered(unmount_letter_script(letter, hint), replies, 0, 1) ==> step_after(
            unmount_letter_script(letter, hint),
            replies,
            0,
            2,
        ) == Step::<Result<(), Seq<char>>>::Call(CallView::IsProcessElevated),
{
    lemma_unmount_step(letter, hint, replies, 0);
    if answered(unmount_letter_script(letter, hint), replies, 0, 0) {
        lemma_unmount_step(letter, hint, replies, 1);
    }
    if answered(unmount_letter_script(letter, hint), replies, 0, 1) {
        lemma_unmount_step(letter, hint, replies, 2);
    }
}

/// A process that is not elevated turns to the drive service at once. An elevated one undoes the
/// binding itself: with the hint, and with what the letter is bound to where there is no hint; only
/// where the letter is bound to nothing does it turn to the service.
pub proof fn law_an_elevated_process_removes_the_letter_itself(
    letter: char,
    hint: Seq<char>,
    replies: Seq<Reply>,
)
    requires
        answered(unmount_letter_script(letter, hint), replies, 0, 2),
    ensures
        replies[2] == Reply::Flag(false) ==> step_after(
            unmount_letter_script(letter, hint),
            replies,
            0,
            3,
        ) == Step::<Result<(), Seq<char>>>::Call(CallView::ServiceQuery { drive: letter as u8 }),
        replies[2] == Reply::Flag(true) && hint.len() > 0 ==> step_after(
            unmount_letter_script(letter, hint),
            replies,
            0,
            3,
        ) == Step::<Result<(), Seq<char>>>::Call(CallView::RemoveLocal { letter, target: hint }),
        replies[2] == Reply::Flag(true) && hint.len() == 0 ==> {
            &&& step_after(unmount_letter_script(letter, hint), replies, 0, 3) == Step::<
                Result<(), Seq<char>>,
            >::Call(CallView::QueryDosDevice { letter })
            &&& answered(unmount_letter_script(letter, hint), replies, 0, 3) ==> step_after(
                unmount_letter_script(letter, hint),
                replies,
                0,
                4,
            ) == (match replies[3]->Target_0 {
                Some(bound) => if bound@.len() > 0 {
                    Step::<Result<(), Seq<char>>>::Call(
                        CallView::RemoveLocal { letter, target: bound@ },
                    )
                } else {
                    Step::Call(CallView::ServiceQuery { drive: letter as u8 })
                },
                None => Step::Call(CallView::ServiceQuery { drive: letter as u8 }),
            })
        },
{
    lemma_answered(unmount_letter_script(letter, hint), replies, 0, 2);
    assert(answered(unmount_letter_script(letter, hint), replies, 0, 1));
    law_unmount_begins_with_what_lasts(letter, hint, replies);
    lemma_unmount_step(letter, hint, replies, 3);
    if answered(unmount_letter_script(letter, hint), replies, 0, 3) {
        lemma_unmount_step(letter, hint, replies, 4);
    }
}

/// A removal from this process is trusted only where the letter is then found to be free: that ends
/// the unmount. Where the removal has failed, or something is still bound to the letter, the drive
/// service is turned to.
pub proof fn law_a_local_removal_is_checked(
    letter: char,
    hint: Seq<char>,
    replies: Seq<Reply>,
    i: int,
)
    requires
        answered(unmount_letter_script(letter, hint), replies, 0, i),
        calls(unmount_letter_script(letter, hint), replies, 0)[i] is RemoveLocal,
    ensures
        replies[i] == Reply::Flag(false) ==> step_after(
            unmount_letter_script(letter, hint),
            replies,
            0,
            i + 1,
        ) == Step::<Result<(), Seq<char>>>::Call(CallView::ServiceQuery { drive: letter as u8 }),
        replies[i] == Reply::Flag(true) ==> {
            &&& step_after(unmount_letter_script(letter, hint), replies, 0, i + 1) == Step::<
                Result<(), Seq<char>>,
            >::Call(CallView::QueryDosDevice { letter })
            &&& answered(unmount_letter_script(letter, hint), replies, 0, i + 1) ==> step_after(
                unmount_letter_script(letter, hint),
                replies,
                0,
                i + 2,
            ) == (match replies[i + 1]->Target_0 {
                None => Step::<Result<(), Seq<char>>>::End(Ok(())),
                Some(_) => Step::Call(CallView::ServiceQuery { drive: letter as u8 }),
            })
        },
{
    lemma_unmount_begins(letter, hint, replies, i);
    lemma_unmount_step(letter, hint, replies, i + 1);
    if answered(unmount_letter_script(letter, hint), replies, 0, i + 1) {
        lemma_unmount_step(letter, hint, replies, i + 2);
    }
}

/// Whenever the drive service knows what the letter is bound to, it is asked to undo that very
/// binding, whatever the hint is.
pub proof fn law_what_the_service_knows_is_removed(
    letter: char,
    hint: Seq<char>,
    replies: Seq<Reply>,
    i: int,
)
    requires
        answered(unmount_letter_script(letter, hint), replies, 0, i),
        calls(unmount_letter_script(letter, hint), replies, 0)[i] is ServiceQuery,
        replies[i] matches Reply::Drive(Ok(Some(query))) && query.result
            && query.symlink@.len() > 0,
    ensures
        step_after(unmount_letter_script(letter, hint), replies, 0, i + 1) == Step::<
            Result<(), Seq<char>>,
        >::Call(
            CallView::ServiceRemove {
                drive: letter as u8,
                target: replies[i]->Drive_0->Ok_0->0.symlink@,
            },
        ),
{
    lemma_unmount_begins(letter, hint, replies, i);
    lemma_unmount_step(letter, hint, replies, i + 1);
}

/// Where the drive service was reached and does not know what the letter is bound to, it is asked
/// to undo the binding to the hint; where there is no hint, to what the letter is found to be bound
/// to; and only where that is nothing does the unmount end, with an error.
pub proof fn law_the_hint_comes_second_and_the_binding_third(
    letter: char,
    hint: Seq<char>,
    replies: Seq<Reply>,
    i: int,
)
    requires
        answered(unmount_letter_script(letter, hint), replies, 0, i),
        calls(unmount_letter_script(letter, hint), replies, 0)[i] is ServiceQuery,
        replies[i] matches Reply::Drive(Ok(found)) && (found matches Some(query) ==> !query.result
            || query.symlink@.len() == 0),
    ensures
        hint.len() > 0 ==> step_after(unmount_letter_script(letter, hint), replies, 0, i + 1)
            == Step::<Result<(), Seq<char>>>::Call(
            CallView::ServiceRemove { drive: letter as u8, target: hint },
        ),
        hint.len() == 0 ==> {
            &&& step_after(unmount_letter_script(letter, hint), replies, 0, i + 1) == Step::<
                Result<(), Seq<char>>,
            >::Call(CallView::QueryDosDevice { letter })
            &&& answered(unmount_letter_script(letter, hint), replies, 0, i + 1) ==> step_after(
                unmount_letter_script(letter, hint),
                replies,
                0,
                i + 2,
            ) == (match replies[i + 1]->Target_0 {
                Some(bound) => if bound@.len() > 0 {
                    Step::<Result<(), Seq<char>>>::Call(
                        CallView::ServiceRemove { drive: letter as u8, target: bound@ },
                    )
                } else {
                    Step::End(Err("Failed to remove drive letter "@ + seq![letter, ':']))
                },
                None => Step::End(Err("Failed to remove drive letter "@ + seq![letter, ':'])),
            })
        },
{
    lemma_unmount_begins(letter, hint, replies, i);
    lemma_unmount_step(letter, hint, replies, i + 1);
    assert("Failed to remove drive letter "@ + seq![letter, ':']
        == "Failed to remove drive letter "@.push(letter).push(':'));
    if answered(unmount_letter_script(letter, hint), replies, 0, i + 1) {
        lemma_unmount_step(letter, hint, replies, i + 2);
    }
}

/// A drive service that is not reached ends the unmount with an error that names the letter and the
/// reason.
pub proof fn law_an_unmount_needs_the_service(
    letter: char,
    hint: Seq<char>,
    replies: Seq<Reply>,
    i: int,
)
    requires
        answered(unmount_letter_script(letter, hint), replies, 0, i),
    ensures
        calls(unmount_letter_script(letter, hint), replies, 0)[i] is ServiceQuery
            && replies[i]->Drive_0 is Err ==> step_after(
            unmount_letter_script(letter, hint),
            replies,
            0,
            i + 1,
        ) == Step::<Result<(), Seq<char>>>::End(
            Err(
                "Failed to remove drive letter "@ + seq![letter, ':'] + "\nExt2Srv pipe: "@
                    + replies[i]->Drive_0->Err_0@,
            ),
        ),
        calls(unmount_letter_script(letter, hint), replies, 0)[i] is ServiceRemove
            && replies[i]->Service_0 is Err ==> step_after(
            unmount_letter_script(letter, hint),
            replies,
            0,
            i + 1,
        ) == Step::<Result<(), Seq<char>>>::End(
            Err(
                "Failed to remove drive letter "@ + seq![letter, ':', '\n']
                    + replies[i]->Service_0->Err_0@,
            ),
        ),
{
    lemma_unmount_begins(letter, hint, replies, i);
    lemma_unmount_step(letter, hint, replies, i + 1);
    assert("Failed to remove drive letter "@ + seq![letter, ':']
        == "Failed to remove drive letter "@.push(letter).push(':'));
    assert("Failed to remove drive letter "@ + seq![letter, ':', '\n']
        == "Failed to remove drive letter "@.push(letter).push(':').push('\n'));
}

/// Where the drive service says that it has undone the binding, the unmount has succeeded. Where it
/// says that it has not, the letter is looked up: the unmount has succeeded exactly where the
/// letter is bound to nothing.
pub proof fn law_a_refusal_of_the_service_is_checked(
    letter: char,
    hint: Seq<char>,
    replies: Seq<Reply>,
    i: int,
)
    requires
        answered(unmount_letter_script(letter, hint), replies, 0, i),
        calls(unmount_letter_script(letter, hint), replies, 0)[i] is ServiceRemove,
    ensures
        replies[i] == Reply::Service(Ok(true)) ==> step_after(
            unmount_letter_script(letter, hint),
            replies,
            0,
            i + 1,
        ) == Step::<Result<(), Seq<char>>>::End(Ok(())),
        replies[i] == Reply::Service(Ok(false)) ==> {
            &&& step_after(unmount_letter_script(letter, hint), replies, 0, i + 1) == Step::<
                Result<(), Seq<char>>,
            >::Call(CallView::QueryDosDevice { letter })
            &&& answered(unmount_letter_script(letter, hint), replies, 0, i + 1) ==> step_after(
                unmount_letter_script(letter, hint),
                replies,
                0,
                i + 2,
            ) == (match replies[i + 1]->Target_0 {
                None => Step::<Result<(), Seq<char>>>::End(Ok(())),
                Some(_) => Step::End(Err("Failed to remove drive letter "@ + seq![letter, ':'])),
            })
        },
{
    lemma_unmount_begins(letter, hint, replies, i);
    lemma_unmount_step(letter, hint, replies, i + 1);
    assert("Failed to remove drive letter "@ + seq![letter, ':']
        == "Failed to remove drive letter "@.push(letter).push(':'));
    if answered(unmount_letter_script(letter, hint), replies, 0, i + 1) {
        lemma_unmount_step(letter, hint, replies, i + 2);
    }
}

/// An unmount that has ended with an error, without having asked for a removal at all, has not
/// reached the drive service, or nothing names a target: neither the service nor the hint nor what
/// the letter is bound to.
pub proof fn law_no_removal_only_without_a_target(
    letter: char,
    hint: Seq<char>,
    replies: Seq<Reply>,
)
    requires
        outcome(unmount_letter_script(letter, hint), replies, 0) matches Outcome::Ended(Err(_), _),
        forall|i: int|
            0 <= i < calls(unmount_letter_script(letter, hint), replies, 0).len() ==> {
                let call = #[trigger] calls(unmount_letter_script(letter, hint), replies, 0)[i];
                !(call is RemoveLocal) && !(call is ServiceRemove)
            },
    ensures
        ({
            let made = calls(unmount_letter_script(letter, hint), replies, 0);
            let last = made.len() - 1;
            ||| made[last] is ServiceQuery && replies[last]->Drive_0 is Err
            ||| {
                &&& hint.len() == 0
                &&& last > 0
                &&& made[last - 1] is ServiceQuery
                &&& replies[last - 1] matches Reply::Drive(Ok(found))
                &&& found matches Some(query) ==> !query.result || query.symlink@.len() == 0
                &&& made[last] == (CallView::QueryDosDevice { letter })
                &&& replies[last]->Target_0 matches Some(bound) ==> bound@.len() == 0
            }
        }),
{
    let script = unmount_letter_script(letter, hint);
    let made = calls(script, replies, 0);
    let count = made.len() as int;
    law_unmount_clears_what_lasts(letter, hint, replies);
    lemma_ended(script, replies, 0);
    assert(answered(script, replies, 0, count - 1));
    assert(answered(script, replies, 0, count - 2));
    assert(answered(script, replies, 0, count - 3));
    lemma_unmount_step(letter, hint, replies, count);
    lemma_unmount_step(letter, hint, replies, count - 1);
    lemma_unmount_step(letter, hint, replies, count - 2);
    assert(!(made[count - 1] is RemoveLocal) && !(made[count - 1] is ServiceRemove));
    assert(!(made[count - 2] is RemoveLocal) && !(made[count - 2] is ServiceRemove));
}

/// The first two calls of an unmount are no calls of the later kinds.
proof fn lemma_unmount_begins(letter: char, hint: Seq<char>, replies: Seq<Reply>, i: int)
    requires
        answered(unmount_letter_script(letter, hint), replies, 0, i),
    ensures
        i == 0 ==> calls(unmount_letter_script(letter, hint), replies, 0)[i] is ClearRegistry,
        i == 1 ==> calls(unmount_letter_script(letter, hint), replies, 0)[i] is DeleteMountPoint,
{
    law_unmount_clears_what_lasts(letter, hint, replies);
}

} // verus!
