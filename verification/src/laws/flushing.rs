//! Laws of flushing, and of handles that are opened and closed.

use vstd::prelude::*;

use crate::flush::{
    attempt_script, flush_paths, flush_volume_script, onward_script, GENERIC_READ, GENERIC_WRITE,
    INVALID_HANDLE,
};
use crate::protocol::{CallView, Reply};
use crate::script::{calls, law_one_reply_for_each_call, outcome, Outcome};
use crate::text::{decimal, law_trimmed_end, law_trimmed_start, trimmed_end, trimmed_start};
use crate::trace::{
    answered, ends_within, is_value, lemma_answered, lemma_ends_within,
    lemma_ends_within_bind_any, lemma_obeys, lemma_obeys_bind_any, lemma_rule, obeys, past,
    rule_end, rule_watch, state_after, step_after, Exchange, Step, Watch,
};
use crate::win32::is_process_elevated_script;

verus! {

/// What the calls of a flush have led to.
pub struct FlushState {
    /// The paths that were tried, in order.
    pub tried: Seq<Seq<char>>,
    /// The handle that is open.
    pub handle: Option<isize>,
    /// The last flush has succeeded.
    pub flushed: bool,
}

impl FlushState {
    /// Before the first call.
    pub open spec fn start() -> FlushState {
        FlushState { tried: Seq::empty(), handle: None, flushed: false }
    }

    /// After a call and its reply.
    pub open spec fn step(self, call: CallView, reply: Reply) -> FlushState {
        match call {
            CallView::OpenVolume { path, .. } => FlushState {
                tried: self.tried.push(path),
                handle: if reply->Opened_handle == INVALID_HANDLE {
                    None
                } else {
                    Some(reply->Opened_handle)
                },
                flushed: false,
            },
            CallView::FlushBuffers { .. } => FlushState {
                flushed: reply->Flushed_ok != 0,
                ..self
            },
            CallView::CloseHandle { .. } => FlushState { handle: None, ..self },
            _ => self,
        }
    }

    /// Whether the call is in order: the next path is opened only while no handle is open and no
    /// flush has succeeded, and only an open handle is flushed or closed.
    pub open spec fn may(self, paths: Seq<Seq<char>>, call: CallView) -> bool {
        match call {
            CallView::OpenVolume { path, access } => {
                &&& self.handle is None
                &&& !self.flushed
                &&& self.tried.len() < paths.len()
                &&& path == paths[self.tried.len() as int]
                &&& access == GENERIC_READ | GENERIC_WRITE
            },
            CallView::FlushBuffers { handle } => self.handle == Some(handle),
            CallView::CloseHandle { handle } => self.handle == Some(handle),
            _ => false,
        }
    }
}

/// The watch over a flush by these paths.
pub open spec fn flush_watch(paths: Seq<Seq<char>>) -> Watch<FlushState> {
    Watch {
        step: |state: FlushState, call: CallView, reply: Reply| state.step(call, reply),
        may: |state: FlushState, call: CallView| state.may(paths, call),
    }
}

/// How a flush may end: with no handle open, successfully exactly where a flush has succeeded, and
/// without success only once every path was tried.
pub open spec fn flush_end(
    paths: Seq<Seq<char>>,
    state: FlushState,
    done: Result<(), Seq<char>>,
) -> bool {
    &&& state.handle is None
    &&& done is Ok <==> state.flushed
    &&& done is Err ==> state.tried == paths
}

/// The state of a flush after the first `count` of its calls.
pub open spec fn flush_state(
    letters: Seq<char>,
    name: Seq<char>,
    object: Seq<char>,
    replies: Seq<Reply>,
    count: nat,
) -> FlushState {
    state_after(
        flush_watch(flush_paths(letters, name, object)),
        FlushState::start(),
        calls(flush_volume_script(letters, name, object), replies, 0),
        replies,
        0,
        count,
    )
}

proof fn lemma_onward_obeys(
    paths: Seq<Seq<char>>,
    from: nat,
    attempted: Result<(), Seq<char>>,
    state: FlushState,
)
    requires
        from <= paths.len(),
        state.tried == paths.take(from as int),
        state.handle is None,
        state.flushed <==> attempted is Ok,
    ensures
        obeys(
            onward_script(paths, from, attempted),
            state,
            flush_watch(paths),
            |later: FlushState, done: Result<(), Seq<char>>| flush_end(paths, later, done),
        ),
    decreases paths.len() - from,
{
    let watch = flush_watch(paths);
    let end = |later: FlushState, done: Result<(), Seq<char>>| flush_end(paths, later, done);
    assert(paths.take(paths.len() as int) == paths);
    if attempted is Err && from < paths.len() {
        let between = |later: FlushState, next: Result<(), Seq<char>>|
            {
                &&& later.tried == paths.take(from as int + 1)
                &&& later.handle is None
                &&& later.flushed <==> next is Ok
            };
        assert(paths.take(from as int + 1) == paths.take(from as int).push(paths[from as int]));
        assert(obeys(attempt_script(paths[from as int]), state, watch, between)) by {
            reveal_with_fuel(obeys, 4);
        }
        assert forall|later: FlushState, next: Result<(), Seq<char>>| #[trigger]
            between(later, next) implies obeys(
            onward_script(paths, from + 1, next),
            later,
            watch,
            end,
        ) by {
            lemma_onward_obeys(paths, from + 1, next, later);
        }
        lemma_obeys_bind_any(attempt_script(paths[from as int]), state, watch, between, end);
    }
}

proof fn lemma_flush_obeys(letters: Seq<char>, name: Seq<char>, object: Seq<char>)
    ensures
        obeys(
            flush_volume_script(letters, name, object),
            FlushState::start(),
            flush_watch(flush_paths(letters, name, object)),
            |later: FlushState, done: Result<(), Seq<char>>|
                flush_end(flush_paths(letters, name, object), later, done),
        ),
{
    let paths = flush_paths(letters, name, object);
    assert(paths.take(0) == Seq::<Seq<char>>::empty());
    if paths.len() > 0 {
        lemma_onward_obeys(paths, 0, Err("Flush failed"@), FlushState::start());
    } else {
        assert(paths == Seq::<Seq<char>>::empty());
    }
}

/// A flush tries the paths in their order, the next one only where none before has succeeded, and
/// uses no handle that it has not opened or has closed already.
pub proof fn law_paths_are_tried_in_order(
    letters: Seq<char>,
    name: Seq<char>,
    object: Seq<char>,
    replies: Seq<Reply>,
)
    ensures
        forall|i: int|
            0 <= i < calls(flush_volume_script(letters, name, object), replies, 0).len()
                ==> flush_state(letters, name, object, replies, i as nat).may(
                flush_paths(letters, name, object),
                #[trigger] calls(flush_volume_script(letters, name, object), replies, 0)[i],
            ),
{
    lemma_flush_obeys(letters, name, object);
    lemma_obeys(
        flush_volume_script(letters, name, object),
        FlushState::start(),
        flush_watch(flush_paths(letters, name, object)),
        |later: FlushState, done: Result<(), Seq<char>>|
            flush_end(flush_paths(letters, name, object), later, done),
        replies,
        0,
    );
}

/// A flush succeeds exactly where the system has flushed the volume by one of the paths; it fails
/// only after every path was tried; and either way it leaves no handle open.
pub proof fn law_flushed_exactly_when_it_says_so(
    letters: Seq<char>,
    name: Seq<char>,
    object: Seq<char>,
    replies: Seq<Reply>,
)
    ensures
        outcome(flush_volume_script(letters, name, object), replies, 0) matches Outcome::Ended(
            done,
            stop,
        ) ==> flush_end(
            flush_paths(letters, name, object),
            flush_state(letters, name, object, replies, stop),
            done,
        ),
{
    lemma_flush_obeys(letters, name, object);
    lemma_obeys(
        flush_volume_script(letters, name, object),
        FlushState::start(),
        flush_watch(flush_paths(letters, name, object)),
        |later: FlushState, done: Result<(), Seq<char>>|
            flush_end(flush_paths(letters, name, object), later, done),
        replies,
        0,
    );
    law_one_reply_for_each_call(flush_volume_script(letters, name, object), replies, 0);
}

proof fn lemma_onward_ends(
    paths: Seq<Seq<char>>,
    from: nat,
    attempted: Result<(), Seq<char>>,
)
    requires
        from <= paths.len(),
    ensures
        ends_within(onward_script(paths, from, attempted), (3 * (paths.len() - from)) as nat),
    decreases paths.len() - from,
{
    if attempted is Err && from < paths.len() {
        assert(ends_within(attempt_script(paths[from as int]), 3)) by {
            reveal_with_fuel(ends_within, 4);
        }
        let more = (3 * (paths.len() - from - 1)) as nat;
        assert forall|next: Result<(), Seq<char>>| #[trigger]
            is_value(next) implies ends_within(onward_script(paths, from + 1, next), more) by {
            lemma_onward_ends(paths, from + 1, next);
        }
        lemma_ends_within_bind_any::<Result<(), Seq<char>>, Result<(), Seq<char>>>(
            attempt_script(paths[from as int]),
            3,
            more,
        );
        assert(3 + more == (3 * (paths.len() - from)) as nat);
    }
}

/// A flush ends after at most nine calls.
pub proof fn law_a_flush_ends(
    letters: Seq<char>,
    name: Seq<char>,
    object: Seq<char>,
    replies: Seq<Reply>,
)
    ensures
        calls(flush_volume_script(letters, name, object), replies, 0).len() <= 9,
{
    let paths = flush_paths(letters, name, object);
    lemma_onward_ends(paths, 0, Err("Flush failed"@));
    lemma_ends_within(
        flush_volume_script(letters, name, object),
        (3 * paths.len()) as nat,
        replies,
        0,
    );
}

/// A volume has no path to flush exactly where it has no letter, no name but backslashes and no
/// device object; then the flush is refused, and no call is made.
pub proof fn law_no_path_to_flush(
    letters: Seq<char>,
    name: Seq<char>,
    object: Seq<char>,
    replies: Seq<Reply>,
)
    ensures
        flush_paths(letters, name, object).len() == 0 <==> letters.len() == 0 && object.len() == 0
            && crate::text::trimmed_end(name, '\\').len() == 0,
        flush_paths(letters, name, object).len() == 0 ==> outcome(
            flush_volume_script(letters, name, object),
            replies,
            0,
        ) == Outcome::<Result<(), Seq<char>>>::Ended(Err("No path to flush"@), 0),
{
}

/// The token of the process, where it was opened, is closed before the answer is given; and the
/// answer is yes only where the system has said so.
pub proof fn law_the_token_is_closed(replies: Seq<Reply>)
    ensures
        outcome(is_process_elevated_script(), replies, 0) matches Outcome::Ended(elevated, stop)
            ==> {
            &&& replies[0]->Token_ok != 0 ==> calls(is_process_elevated_script(), replies, 0).last()
                == (CallView::CloseHandle { handle: replies[0]->Token_handle })
            &&& elevated <==> replies[0]->Token_ok != 0 && replies[1]->Elevation_ok != 0
                && replies[1]->Elevation_elevated != 0
        },
{
    reveal_with_fuel(outcome, 4);
    reveal_with_fuel(calls, 4);
}

/// How many of the first `count` calls open a path.
pub open spec fn opened_before(made: Seq<CallView>, count: int) -> nat
    decreases count,
{
    if count <= 0 {
        0
    } else {
        opened_before(made, count - 1) + if made[count - 1] is OpenVolume {
            1nat
        } else {
            0
        }
    }
}

/// How many of the calls so far have opened a path.
spec fn opens(before: Seq<Exchange>) -> nat
    decreases before.len(),
{
    if before.len() == 0 {
        0
    } else {
        opens(before.drop_last()) + if before.last().call is OpenVolume {
            1nat
        } else {
            0
        }
    }
}

/// What follows a path by which the flush has failed: the next path, or the end.
spec fn flush_on(paths: Seq<Seq<char>>, from: nat, reason: Seq<char>) -> Step<
    Result<(), Seq<char>>,
> {
    if from < paths.len() {
        Step::Call(CallView::OpenVolume { path: paths[from as int], access: 0xC000_0000 })
    } else {
        Step::End(Err(reason))
    }
}

/// What a flush by these paths does next after the calls so far and their replies.
spec fn flush_next(paths: Seq<Seq<char>>, before: Seq<Exchange>) -> Step<Result<(), Seq<char>>> {
    let count = before.len();
    let last = before[count - 1];
    if count == 0 {
        flush_on(paths, 0, "No path to flush"@)
    } else {
        match last.call {
            CallView::OpenVolume { path, .. } => if last.reply->Opened_handle == -1 {
                flush_on(
                    paths,
                    opens(before),
                    "Open "@ + path + " failed ("@ + decimal(last.reply->Opened_code as nat)
                        + seq![')'],
                )
            } else {
                Step::Call(CallView::FlushBuffers { handle: last.reply->Opened_handle })
            },
            CallView::FlushBuffers { handle } => Step::Call(CallView::CloseHandle { handle }),
            _ => if before[count - 2].reply->Flushed_ok != 0 {
                Step::End(Ok(()))
            } else {
                flush_on(
                    paths,
                    opens(before),
                    "FlushFileBuffers("@ + before[count - 3].call->OpenVolume_path + ") failed ("@
                        + decimal(before[count - 2].reply->Flushed_code as nat) + seq![')'],
                )
            },
        }
    }
}

spec fn flush_rule(paths: Seq<Seq<char>>) -> spec_fn(
    Seq<Exchange>,
    Step<Result<(), Seq<char>>>,
) -> bool {
    |before: Seq<Exchange>, step: Step<Result<(), Seq<char>>>| step == flush_next(paths, before)
}

/// What follows an attempt.
spec fn after_attempt(paths: Seq<Seq<char>>, from: nat, attempted: Result<(), Seq<char>>) -> Step<
    Result<(), Seq<char>>,
> {
    match attempted {
        Ok(_) => Step::End(attempted),
        Err(reason) => flush_on(paths, from, reason),
    }
}

proof fn lemma_attempt_rule(paths: Seq<Seq<char>>, from: nat, before: Seq<Exchange>)
    requires
        from < paths.len(),
        opens(before) == from,
        flush_next(paths, before) == flush_on(paths, from, "Flush failed"@),
    ensures
        obeys(
            attempt_script(paths[from as int]),
            before,
            rule_watch(flush_rule(paths)),
            |later: Seq<Exchange>, next: Result<(), Seq<char>>|
                opens(later) == from + 1 && flush_next(paths, later) == after_attempt(
                    paths,
                    from + 1,
                    next,
                ),
        ),
{
    let path = paths[from as int];
    let watch = rule_watch(flush_rule(paths));
    let end = |later: Seq<Exchange>, next: Result<(), Seq<char>>|
        opens(later) == from + 1 && flush_next(paths, later) == after_attempt(
            paths,
            from + 1,
            next,
        );
    assert(GENERIC_READ | GENERIC_WRITE == 0xC000_0000) by (bit_vector);
    assert forall|text: Seq<char>| text + seq![')'] == #[trigger] text.push(')') by {}
    let script = attempt_script(path);
    assert forall|opened: Reply| script->Ask_0.fits(opened) implies obeys(
        #[trigger] (script->Ask_1)(opened),
        (watch.step)(before, script->Ask_0, opened),
        watch,
        end,
    ) by {
        let one = (watch.step)(before, script->Ask_0, opened);
        assert(one.drop_last() == before);
        assert(opens(one) == from + 1);
        if opened->Opened_handle != INVALID_HANDLE {
            let second = (script->Ask_1)(opened);
            assert forall|flushed: Reply| second->Ask_0.fits(flushed) implies obeys(
                #[trigger] (second->Ask_1)(flushed),
                (watch.step)(one, second->Ask_0, flushed),
                watch,
                end,
            ) by {
                let two = (watch.step)(one, second->Ask_0, flushed);
                assert(two.drop_last() == one);
                assert(opens(two) == from + 1);
                let third = (second->Ask_1)(flushed);
                assert forall|closed: Reply| third->Ask_0.fits(closed) implies obeys(
                    #[trigger] (third->Ask_1)(closed),
                    (watch.step)(two, third->Ask_0, closed),
                    watch,
                    end,
                ) by {
                    let three = (watch.step)(two, third->Ask_0, closed);
                    assert(three.drop_last() == two);
                    assert(opens(three) == from + 1);
                }
            }
        }
    }
}

proof fn lemma_onward_rule(
    paths: Seq<Seq<char>>,
    from: nat,
    attempted: Result<(), Seq<char>>,
    before: Seq<Exchange>,
)
    requires
        from <= paths.len(),
        opens(before) == from,
        flush_next(paths, before) == after_attempt(paths, from, attempted),
    ensures
        obeys(
            onward_script(paths, from, attempted),
            before,
            rule_watch(flush_rule(paths)),
            rule_end(flush_rule(paths)),
        ),
    decreases paths.len() - from,
{
    let watch = rule_watch(flush_rule(paths));
    let end = rule_end(flush_rule(paths));
    if attempted is Err && from < paths.len() {
        let between = |later: Seq<Exchange>, next: Result<(), Seq<char>>|
            opens(later) == from + 1 && flush_next(paths, later) == after_attempt(
                paths,
                from + 1,
                next,
            );
        lemma_attempt_rule(paths, from, before);
        assert forall|later: Seq<Exchange>, next: Result<(), Seq<char>>| #[trigger]
            between(later, next) implies obeys(
            onward_script(paths, from + 1, next),
            later,
            watch,
            end,
        ) by {
            lemma_onward_rule(paths, from + 1, next, later);
        }
        lemma_obeys_bind_any(attempt_script(paths[from as int]), before, watch, between, end);
    } else {
        assert(end(before, attempted));
    }
}

proof fn lemma_flush_step(
    letters: Seq<char>,
    name: Seq<char>,
    object: Seq<char>,
    replies: Seq<Reply>,
    count: int,
)
    requires
        count == 0 || answered(flush_volume_script(letters, name, object), replies, 0, count - 1),
    ensures
        step_after(flush_volume_script(letters, name, object), replies, 0, count) == flush_next(
            flush_paths(letters, name, object),
            past(flush_volume_script(letters, name, object), replies, 0, count),
        ),
        opens(past(flush_volume_script(letters, name, object), replies, 0, count)) == opened_before(
            calls(flush_volume_script(letters, name, object), replies, 0),
            count,
        ),
{
    let paths = flush_paths(letters, name, object);
    if paths.len() > 0 {
        lemma_onward_rule(paths, 0, Err("Flush failed"@), Seq::empty());
    }
    lemma_rule(flush_volume_script(letters, name, object), flush_rule(paths), replies, 0, count);
    lemma_opens(letters, name, object, replies, count);
}

proof fn lemma_opens(
    letters: Seq<char>,
    name: Seq<char>,
    object: Seq<char>,
    replies: Seq<Reply>,
    count: int,
)
    requires
        0 <= count,
    ensures
        opens(past(flush_volume_script(letters, name, object), replies, 0, count)) == opened_before(
            calls(flush_volume_script(letters, name, object), replies, 0),
            count,
        ),
    decreases count,
{
    if count > 0 {
        lemma_opens(letters, name, object, replies, count - 1);
        assert(past(flush_volume_script(letters, name, object), replies, 0, count).drop_last()
            == past(
            flush_volume_script(letters, name, object),
            replies,
            0,
            count - 1,
        ));
    }
}

/// The number of paths to a volume: one for its letters, one for a name that is more than
/// backslashes and one for its device object.
proof fn lemma_paths(letters: Seq<char>, name: Seq<char>, object: Seq<char>)
    ensures
        ({
            let paths = flush_paths(letters, name, object);
            let lettered: int = if letters.len() > 0 {
                1
            } else {
                0
            };
            let named: int = if exists|k: int| 0 <= k < name.len() && name[k] != '\\' {
                1
            } else {
                0
            };
            &&& paths.len() == lettered + named + if object.len() > 0 {
                1int
            } else {
                0
            }
            &&& lettered == 1 ==> paths[0] == seq!['\\', '\\', '.', '\\', letters[0], ':']
            &&& named == 1 ==> {
                let path = paths[lettered];
                &&& path.len() > 0
                &&& path.last() != '\\'
                &&& path.is_prefix_of(name)
                &&& forall|k: int| path.len() <= k < name.len() ==> name[k] == '\\'
            }
            &&& object.len() > 0 ==> {
                let path = paths[lettered + named];
                let rest = path.skip(15);
                &&& path.len() >= 15
                &&& path.take(15) == seq![
                    '\\', '\\', '?', '\\', 'G', 'L', 'O', 'B', 'A', 'L', 'R', 'O', 'O', 'T', '\\',
                ]
                &&& rest.len() <= object.len()
                &&& rest == object.skip(object.len() - rest.len())
                &&& rest.len() > 0 ==> rest[0] != '\\'
                &&& forall|k: int| 0 <= k < object.len() - rest.len() ==> object[k] == '\\'
            }
        }),
{
    reveal_strlit(r"\\.\");
    reveal_strlit(r"\\?\GLOBALROOT\");
    law_trimmed_end(name, '\\');
    law_trimmed_start(object, '\\');
    let paths = flush_paths(letters, name, object);
    if letters.len() > 0 {
        assert(r"\\.\"@.push(letters[0]).push(':') == seq!['\\', '\\', '.', '\\', letters[0], ':']);
    }
    let trimmed = trimmed_end(name, '\\');
    if trimmed.len() == 0 {
        assert(!exists|k: int| 0 <= k < name.len() && name[k] != '\\');
    } else {
        assert(name[trimmed.len() - 1] == trimmed[trimmed.len() - 1]);
    }
    if object.len() > 0 {
        let path = r"\\?\GLOBALROOT\"@ + trimmed_start(object, '\\');
        assert(path.skip(15) == trimmed_start(object, '\\'));
        assert(path.take(15) == seq![
            '\\', '\\', '?', '\\', 'G', 'L', 'O', 'B', 'A', 'L', 'R', 'O', 'O', 'T', '\\',
        ]);
        assert(paths.last() == path);
    }
}

/// Where the volume has a letter, a flush begins by opening the path made of two backslashes, a
/// dot, a backslash, the first letter of the volume and a colon, for reading and writing.
pub proof fn law_the_first_letter_is_opened_first(
    letters: Seq<char>,
    name: Seq<char>,
    object: Seq<char>,
    replies: Seq<Reply>,
)
    requires
        letters.len() > 0,
    ensures
        step_after(flush_volume_script(letters, name, object), replies, 0, 0)
            == Step::<Result<(), Seq<char>>>::Call(
            CallView::OpenVolume {
                path: seq!['\\', '\\', '.', '\\', letters[0], ':'],
                access: 0xC000_0000,
            },
        ),
        calls(flush_volume_script(letters, name, object), replies, 0)[0]->OpenVolume_path.len()
            == 6,
        calls(flush_volume_script(letters, name, object), replies, 0)[0]->OpenVolume_path[4]
            == letters[0],
{
    lemma_flush_step(letters, name, object, replies, 0);
    lemma_paths(letters, name, object);
    law_one_reply_for_each_call(flush_volume_script(letters, name, object), replies, 0);
}

/// Volumes with different first letters are opened by different paths.
pub proof fn law_different_letters_have_different_paths(
    letters: Seq<char>,
    others: Seq<char>,
    name: Seq<char>,
    object: Seq<char>,
    replies: Seq<Reply>,
)
    requires
        letters.len() > 0,
        others.len() > 0,
        letters[0] != others[0],
    ensures
        calls(flush_volume_script(letters, name, object), replies, 0)[0] != calls(
            flush_volume_script(others, name, object),
            replies,
            0,
        )[0],
{
    law_the_first_letter_is_opened_first(letters, name, object, replies);
    law_the_first_letter_is_opened_first(others, name, object, replies);
}

/// Which path is opened when. The first letter comes first, where there is one. Next comes the name
/// of the volume without the backslashes at its end, where anything is left of it. Last comes the
/// device object without the backslashes at its start, behind `\\?\GLOBALROOT\`, where there is an
/// object. Each is opened for reading and writing.
pub proof fn law_each_path_has_its_turn(
    letters: Seq<char>,
    name: Seq<char>,
    object: Seq<char>,
    replies: Seq<Reply>,
    i: int,
)
    requires
        0 <= i < calls(flush_volume_script(letters, name, object), replies, 0).len(),
        calls(flush_volume_script(letters, name, object), replies, 0)[i] is OpenVolume,
    ensures
        ({
            let path = calls(flush_volume_script(letters, name, object), replies,
                0)[i]->OpenVolume_path;
            let earlier = opened_before(calls(flush_volume_script(letters, name, object), replies,
                0), i);
            let lettered: int = if letters.len() > 0 {
                1
            } else {
                0
            };
            let named: int = if exists|k: int| 0 <= k < name.len() && name[k] != '\\' {
                1
            } else {
                0
            };
            &&& calls(flush_volume_script(letters, name, object), replies,
                0)[i]->OpenVolume_access == 0xC000_0000
            &&& earlier < lettered ==> path == seq!['\\', '\\', '.', '\\', letters[0], ':']
            &&& lettered <= earlier < lettered + named ==> {
                &&& path.len() > 0
                &&& path.last() != '\\'
                &&& path.is_prefix_of(name)
                &&& forall|k: int| path.len() <= k < name.len() ==> name[k] == '\\'
            }
            &&& lettered + named <= earlier ==> {
                let rest = path.skip(15);
                &&& earlier == lettered + named
                &&& object.len() > 0
                &&& path.len() >= 15
                &&& path.take(15) == seq![
                    '\\', '\\', '?', '\\', 'G', 'L', 'O', 'B', 'A', 'L', 'R', 'O', 'O', 'T', '\\',
                ]
                &&& rest.len() <= object.len()
                &&& rest == object.skip(object.len() - rest.len())
                &&& rest.len() > 0 ==> rest[0] != '\\'
                &&& forall|k: int| 0 <= k < object.len() - rest.len() ==> object[k] == '\\'
            }
        }),
{
    law_one_reply_for_each_call(flush_volume_script(letters, name, object), replies, 0);
    if i > 0 {
        assert(answered(flush_volume_script(letters, name, object), replies, 0, i - 1));
    }
    lemma_flush_step(letters, name, object, replies, i);
    lemma_paths(letters, name, object);
}

/// A handle that was opened is flushed, and then closed whatever came of the flush; and a flush
/// that has succeeded ends the operation once the handle is closed.
pub proof fn law_a_handle_is_flushed_and_closed(
    letters: Seq<char>,
    name: Seq<char>,
    object: Seq<char>,
    replies: Seq<Reply>,
    i: int,
)
    requires
        answered(flush_volume_script(letters, name, object), replies, 0, i),
        calls(flush_volume_script(letters, name, object), replies, 0)[i] is OpenVolume,
        replies[i]->Opened_handle != -1,
    ensures
        ({
            let handle = replies[i]->Opened_handle;
            &&& step_after(flush_volume_script(letters, name, object), replies, 0, i + 1)
                == Step::<Result<(), Seq<char>>>::Call(CallView::FlushBuffers { handle })
            &&& answered(flush_volume_script(letters, name, object), replies, 0, i + 1)
                ==> step_after(flush_volume_script(letters, name, object), replies, 0, i + 2)
                == Step::<Result<(), Seq<char>>>::Call(CallView::CloseHandle { handle })
            &&& answered(flush_volume_script(letters, name, object), replies, 0, i + 2)
                && replies[i + 1]->Flushed_ok != 0
                ==> step_after(flush_volume_script(letters, name, object), replies, 0, i + 3)
                == Step::<Result<(), Seq<char>>>::End(Ok(()))
        }),
{
    lemma_flush_trail(letters, name, object, replies, i);
}

/// The three calls by way of one path.
proof fn lemma_flush_trail(
    letters: Seq<char>,
    name: Seq<char>,
    object: Seq<char>,
    replies: Seq<Reply>,
    i: int,
)
    requires
        answered(flush_volume_script(letters, name, object), replies, 0, i),
        calls(flush_volume_script(letters, name, object), replies, 0)[i] is OpenVolume,
    ensures
        ({
            let paths = flush_paths(letters, name, object);
            let made = calls(flush_volume_script(letters, name, object), replies, 0);
            let handle = replies[i]->Opened_handle;
            let earlier = opened_before(made, i);
            &&& handle == -1
                ==> step_after(flush_volume_script(letters, name, object), replies, 0, i + 1)
                == flush_on(
                paths,
                earlier + 1,
                "Open "@ + made[i]->OpenVolume_path + " failed ("@ + decimal(
                    replies[i]->Opened_code as nat,
                ) + seq![')'],
            )
            &&& handle != -1
                ==> step_after(flush_volume_script(letters, name, object), replies, 0, i + 1)
                == Step::<Result<(), Seq<char>>>::Call(CallView::FlushBuffers { handle })
            &&& handle != -1
                && answered(flush_volume_script(letters, name, object), replies, 0, i + 1)
                ==> step_after(
                flush_volume_script(letters, name, object),
                replies,
                0,
                i + 2,
            ) == Step::<Result<(), Seq<char>>>::Call(CallView::CloseHandle { handle })
            &&& handle != -1
                && answered(flush_volume_script(letters, name, object), replies, 0, i + 2)
                ==> step_after(
                flush_volume_script(letters, name, object),
                replies,
                0,
                i + 3,
            ) == if replies[i + 1]->Flushed_ok != 0 {
                Step::End(Ok(()))
            } else {
                flush_on(
                    paths,
                    earlier + 1,
                    "FlushFileBuffers("@ + made[i]->OpenVolume_path + ") failed ("@ + decimal(
                        replies[i + 1]->Flushed_code as nat,
                    ) + seq![')'],
                )
            }
        }),
{
    let script = flush_volume_script(letters, name, object);
    lemma_flush_step(letters, name, object, replies, i + 1);
    if replies[i]->Opened_handle != -1 {
        if answered(script, replies, 0, i + 1) {
            lemma_flush_step(letters, name, object, replies, i + 2);
        }
        if answered(script, replies, 0, i + 2) {
            lemma_answered(script, replies, 0, i + 2);
            assert(answered(script, replies, 0, i + 1));
            lemma_flush_step(letters, name, object, replies, i + 2);
            lemma_flush_step(letters, name, object, replies, i + 3);
            assert(opened_before(calls(script, replies, 0), i + 2) == opened_before(
                calls(script, replies, 0),
                i + 1,
            ));
        }
    }
}

/// Where a path cannot be opened, or the volume cannot be flushed by it, the next path is tried.
/// Only the last path ends the operation, with an error that gives that path and the error code; so
/// no path of the volume is left untried.
pub proof fn law_a_failure_goes_on_to_the_next_path(
    letters: Seq<char>,
    name: Seq<char>,
    object: Seq<char>,
    replies: Seq<Reply>,
    i: int,
)
    requires
        answered(flush_volume_script(letters, name, object), replies, 0, i),
        calls(flush_volume_script(letters, name, object), replies, 0)[i] is OpenVolume,
    ensures
        ({
            let made = calls(flush_volume_script(letters, name, object), replies, 0);
            let tried = opened_before(made, i) + 1;
            let paths: int = (if letters.len() > 0 {
                1int
            } else {
                0
            }) + (if exists|k: int| 0 <= k < name.len() && name[k] != '\\' {
                1int
            } else {
                0
            }) + (if object.len() > 0 {
                1int
            } else {
                0
            });
            &&& replies[i]->Opened_handle == -1
                ==> match step_after(flush_volume_script(letters, name, object), replies, 0,
                i + 1) {
                Step::Call(call) => tried < paths && call is OpenVolume,
                Step::End(done) => tried == paths && done == Err::<(), Seq<char>>(
                    "Open "@ + made[i]->OpenVolume_path + " failed ("@ + decimal(
                        replies[i]->Opened_code as nat,
                    ) + seq![')'],
                ),
            }
            &&& replies[i]->Opened_handle != -1
                && answered(flush_volume_script(letters, name, object), replies, 0, i + 2)
                && replies[i
                + 1]->Flushed_ok == 0
                    ==> match step_after(flush_volume_script(letters, name, object), replies, 0,
                    i + 3) {
                Step::Call(call) => tried < paths && call is OpenVolume,
                Step::End(done) => tried == paths && done == Err::<(), Seq<char>>(
                    "FlushFileBuffers("@ + made[i]->OpenVolume_path + ") failed ("@ + decimal(
                        replies[i + 1]->Flushed_code as nat,
                    ) + seq![')'],
                ),
            }
        }),
{
    lemma_flush_trail(letters, name, object, replies, i);
    lemma_paths(letters, name, object);
    law_one_reply_for_each_call(flush_volume_script(letters, name, object), replies, 0);
    if i > 0 {
        assert(answered(flush_volume_script(letters, name, object), replies, 0, i - 1));
    }
    lemma_flush_step(letters, name, object, replies, i);
}

/// A volume without a letter, without a name that is more than backslashes and without a device
/// object cannot be flushed: no call is made, and the error says so. Any other volume is opened.
pub proof fn law_a_volume_without_a_path_is_refused(
    letters: Seq<char>,
    name: Seq<char>,
    object: Seq<char>,
    replies: Seq<Reply>,
)
    ensures
        letters.len() == 0 && object.len() == 0 && (forall|k: int|
            0 <= k < name.len() ==> name[k] == '\\')
                ==> step_after(flush_volume_script(letters, name, object), replies, 0, 0)
            == Step::<Result<(), Seq<char>>>::End(Err("No path to flush"@)),
        letters.len() > 0 || object.len() > 0 || (exists|k: int|
            0 <= k < name.len() && name[k] != '\\')
                ==> (step_after(flush_volume_script(letters, name, object), replies, 0, 0)
                matches Step::Call(call) && call is OpenVolume),
{
    lemma_flush_step(letters, name, object, replies, 0);
    lemma_paths(letters, name, object);
}

/// Whether the process is elevated: its token is opened, asked for its elevation and closed, with
/// the same handle; a token that cannot be opened or read counts as not elevated.
pub proof fn law_how_elevation_is_found_out(replies: Seq<Reply>)
    ensures
        ({
            let script = is_process_elevated_script();
            &&& step_after(script, replies, 0, 0) == Step::<bool>::Call(CallView::OpenProcessToken)
            &&& answered(script, replies, 0, 0) ==> step_after(script, replies, 0, 1) == (
            if replies[0]->Token_ok == 0 {
                Step::End(false)
            } else {
                Step::<bool>::Call(CallView::TokenElevation { handle: replies[0]->Token_handle })
            })
            &&& answered(script, replies, 0, 1) ==> step_after(script, replies, 0, 2) == Step::<
                bool,
            >::Call(CallView::CloseHandle { handle: replies[0]->Token_handle })
            &&& answered(script, replies, 0, 2) ==> step_after(script, replies, 0, 3) == Step::End(
                replies[1]->Elevation_ok != 0 && replies[1]->Elevation_elevated != 0,
            )
        }),
{
    reveal_with_fuel(outcome, 4);
    reveal_with_fuel(calls, 4);
}

} // verus!
