//! Laws of how the automount pass goes through the volumes.

use vstd::arithmetic::power2::pow2;
use vstd::prelude::*;

use crate::automount::{pending_automounts_script, volume_script, volumes_script};
use crate::laws::automounting::pass_calls;
use crate::laws::turns::{
    entered, law_a_letter_found_unbound_is_bound, law_a_turn_begins_with_the_mount_manager,
    law_giving_up_means_that_every_free_letter_is_bound, law_the_automount_entry_is_looked_up,
    law_the_stored_letter_first_and_then_the_free_ones, lookups,
};
use crate::letters::{
    free_letters, law_a_letter_is_free_where_its_digit_is_zero,
    law_free_letters_are_those_not_in_use, law_the_first_free_letter_is_the_lowest,
};
use crate::protocol::{CallView, Reply};
use crate::report::ReportModel;
use crate::script::{
    calls, law_one_reply_for_each_call, lemma_calls_bind_any, lemma_outcome_bind_any, outcome,
    Outcome,
};
use crate::trace::{answered, lemma_ended, step_after};
use crate::volume::VolumeEntry;

verus! {

/// Where the turn of a volume begins: the position of its first call in the pass, and the report by
/// then.
pub struct Turn {
    pub at: nat,
    pub report: ReportModel,
}

/// Where the turn of the volume at position `i` begins: that of the first one behind the call for
/// the drives in use, with an empty report; that of any other where the turn before it has ended.
pub open spec fn turn(volumes: Seq<VolumeEntry>, replies: Seq<Reply>, i: nat) -> Turn
    decreases i,
{
    if i == 0 {
        Turn {
            at: 1,
            report: ReportModel {
                mounted: Seq::empty(),
                already_mounted: 0,
                errors: Seq::empty(),
            },
        }
    } else {
        let before = turn(volumes, replies, (i - 1) as nat);
        let ended = outcome(
            volume_script(volumes[i - 1], free_letters(replies[0]->Mask_0), before.report),
            replies,
            before.at,
        );
        Turn { at: ended->Ended_1, report: ended->Ended_0 }
    }
}

/// How far the replies take the turn of the volume at position `i`.
pub open spec fn turn_outcome(volumes: Seq<VolumeEntry>, replies: Seq<Reply>, i: nat) -> Outcome<
    ReportModel,
> {
    outcome(
        volume_script(
            volumes[i as int],
            free_letters(replies[0]->Mask_0),
            turn(volumes, replies, i).report,
        ),
        replies,
        turn(volumes, replies, i).at,
    )
}

/// The calls in the turn of the volume at position `i`.
pub open spec fn turn_calls(volumes: Seq<VolumeEntry>, replies: Seq<Reply>, i: nat) -> Seq<
    CallView,
> {
    calls(
        volume_script(
            volumes[i as int],
            free_letters(replies[0]->Mask_0),
            turn(volumes, replies, i).report,
        ),
        replies,
        turn(volumes, replies, i).at,
    )
}

/// The turn of the volume at position `j` lies before the limit, and its calls are those of the
/// pass there.
spec fn lies_before(volumes: Seq<VolumeEntry>, replies: Seq<Reply>, j: nat, limit: nat) -> bool {
    let here = turn(volumes, replies, j).at;
    let next = turn(volumes, replies, j + 1).at;
    &&& here <= next <= limit
    &&& pass_calls(volumes, replies).subrange(here as int, next as int) == turn_calls(
        volumes,
        replies,
        j,
    )
}

/// The rest of a pass from the volume at position `i` on.
proof fn lemma_pass_until(volumes: Seq<VolumeEntry>, replies: Seq<Reply>, i: nat)
    requires
        replies.len() > 0,
        replies[0] is Mask,
        i <= volumes.len(),
        forall|j: nat| j < i ==> #[trigger] turn_outcome(volumes, replies, j) is Ended,
    ensures
        ({
            let free = free_letters(replies[0]->Mask_0);
            let here = turn(volumes, replies, i);
            let rest = volumes_script(volumes, i, free, here.report);
            &&& here.at <= pass_calls(volumes, replies).len()
            &&& outcome(pending_automounts_script(volumes), replies, 0) == outcome(
                rest,
                replies,
                here.at,
            )
            &&& pass_calls(volumes, replies).skip(here.at as int) == calls(rest, replies, here.at)
            &&& forall|j: nat| j < i ==> #[trigger] lies_before(volumes, replies, j, here.at)
        }),
    decreases i,
{
    let free = free_letters(replies[0]->Mask_0);
    let script = pending_automounts_script(volumes);
    let all = pass_calls(volumes, replies);
    if i == 0 {
        let next = (script->Ask_1)(replies[0]);
        assert(turn(volumes, replies, 0).report == ReportModel::start());
        assert(next == volumes_script(volumes, 0, free, ReportModel::start()));
        assert(all == seq![CallView::LogicalDrives] + calls(next, replies, 1));
        assert(all.skip(1) == calls(next, replies, 1));
        assert(outcome(script, replies, 0) == outcome(next, replies, 1));
    } else {
        let last = (i - 1) as nat;
        lemma_pass_until(volumes, replies, last);
        let before = turn(volumes, replies, last);
        let here = turn(volumes, replies, i);
        let own = volume_script(volumes[last as int], free, before.report);
        assert(turn_outcome(volumes, replies, last) is Ended);
        lemma_outcome_bind_any::<ReportModel, ReportModel>(own, replies, before.at);
        lemma_calls_bind_any::<ReportModel, ReportModel>(own, replies, before.at);
        law_one_reply_for_each_call(own, replies, before.at);
        let rest = volumes_script(volumes, i, free, here.report);
        let mine = turn_calls(volumes, replies, last);
        let from = volumes_script(volumes, last, free, before.report);
        assert(outcome(from, replies, before.at) == outcome(rest, replies, here.at));
        assert(calls(from, replies, before.at) == mine + calls(rest, replies, here.at));
        assert(here.at == before.at + mine.len());
        assert(all.skip(before.at as int).len()
            == mine.len() + calls(rest, replies, here.at).len());
        assert(all.skip(here.at as int) == all.skip(before.at as int).skip(mine.len() as int));
        assert((mine + calls(rest, replies, here.at)).skip(mine.len() as int) == calls(
            rest,
            replies,
            here.at,
        ));
        assert(all.subrange(before.at as int, here.at as int) == all.skip(before.at as int).take(
            mine.len() as int,
        ));
        assert((mine + calls(rest, replies, here.at)).take(mine.len() as int) == mine);
        assert(here.at <= all.len());
        assert(all.skip(here.at as int) == calls(rest, replies, here.at));
        assert(outcome(script, replies, 0) == outcome(rest, replies, here.at));
        assert forall|j: nat| j < i
            implies #[trigger] lies_before(volumes, replies, j, here.at) by {
            if j < last {
                assert(lies_before(volumes, replies, j, before.at));
            }
        }
    }
}

proof fn lemma_turns_end(volumes: Seq<VolumeEntry>, replies: Seq<Reply>, i: nat)
    requires
        outcome(pending_automounts_script(volumes), replies, 0) is Ended,
        i <= volumes.len(),
    ensures
        replies.len() > 0,
        replies[0] is Mask,
        forall|j: nat| j < i ==> #[trigger] turn_outcome(volumes, replies, j) is Ended,
    decreases i,
{
    if i > 0 {
        let last = (i - 1) as nat;
        lemma_turns_end(volumes, replies, last);
        lemma_pass_until(volumes, replies, last);
        let free = free_letters(replies[0]->Mask_0);
        let before = turn(volumes, replies, last);
        lemma_outcome_bind_any::<ReportModel, ReportModel>(
            volume_script(volumes[last as int], free, before.report),
            replies,
            before.at,
        );
        assert(turn_outcome(volumes, replies, last) is Ended);
    }
}

/// When a pass has ended, every volume of the list has had its turn, whatever the report held by
/// then: the pass has asked for the drives in use, and then made, for each volume in the order of
/// the list, the calls of that volume's turn, one turn beginning where the one before it has ended.
/// The report is what the last turn has left.
pub proof fn law_every_volume_has_its_turn(volumes: Seq<VolumeEntry>, replies: Seq<Reply>)
    requires
        outcome(pending_automounts_script(volumes), replies, 0) is Ended,
    ensures
        pass_calls(volumes, replies)[0] == CallView::LogicalDrives,
        turn(volumes, replies, 0).at == 1,
        forall|i: nat|
            i < volumes.len() ==> {
                &&& #[trigger] turn_outcome(volumes, replies, i) == Outcome::Ended(
                    turn(volumes, replies, i + 1).report,
                    turn(volumes, replies, i + 1).at,
                )
                &&& turn(volumes, replies, i).at <= turn(volumes, replies, i + 1).at
                    <= pass_calls(volumes, replies).len()
                &&& pass_calls(volumes, replies).subrange(
                    turn(volumes, replies, i).at as int,
                    turn(volumes, replies, i + 1).at as int,
                ) == turn_calls(volumes, replies, i)
            },
        turn(volumes, replies, volumes.len()).at == pass_calls(volumes, replies).len(),
        outcome(pending_automounts_script(volumes), replies, 0) == Outcome::Ended(
            turn(volumes, replies, volumes.len()).report,
            turn(volumes, replies, volumes.len()).at,
        ),
{
    let count = volumes.len();
    lemma_turns_end(volumes, replies, count);
    lemma_pass_until(volumes, replies, count);
    law_one_reply_for_each_call(pending_automounts_script(volumes), replies, 0);
    assert forall|i: nat| i < volumes.len() implies {
        &&& #[trigger] turn_outcome(volumes, replies, i) == Outcome::Ended(
            turn(volumes, replies, i + 1).report,
            turn(volumes, replies, i + 1).at,
        )
        &&& turn(volumes, replies, i).at <= turn(volumes, replies, i + 1).at <= pass_calls(
            volumes,
            replies,
        ).len()
        &&& pass_calls(volumes, replies).subrange(
            turn(volumes, replies, i).at as int,
            turn(volumes, replies, i + 1).at as int,
        ) == turn_calls(volumes, replies, i)
    } by {
        assert(lies_before(volumes, replies, i, turn(volumes, replies, count).at));
    }
}

/// A pass that waits does so in the turn of one volume: every volume before it has had its turn,
/// and it waits on the call that this turn waits on.
pub proof fn law_a_pass_waits_in_one_turn(volumes: Seq<VolumeEntry>, replies: Seq<Reply>)
    requires
        outcome(pending_automounts_script(volumes), replies, 0) is Waiting,
        replies.len() > 0,
        replies[0] is Mask,
    ensures
        exists|i: nat|
            {
                &&& i < volumes.len()
                &&& forall|j: nat| j < i ==> #[trigger] turn_outcome(volumes, replies, j) is Ended
                &&& #[trigger] turn_outcome(volumes, replies, i) == outcome(
                    pending_automounts_script(volumes),
                    replies,
                    0,
                )
            },
{
    let i = lemma_first_waiting(volumes, replies, volumes.len());
    lemma_pass_until(volumes, replies, i);
    let free = free_letters(replies[0]->Mask_0);
    let here = turn(volumes, replies, i);
    if i < volumes.len() {
        lemma_outcome_bind_any::<ReportModel, ReportModel>(
            volume_script(volumes[i as int], free, here.report),
            replies,
            here.at,
        );
        assert(turn_outcome(volumes, replies, i) == outcome(
            pending_automounts_script(volumes),
            replies,
            0,
        ));
    }
}

/// The first turn before position `limit` that has not ended, or the limit.
proof fn lemma_first_waiting(volumes: Seq<VolumeEntry>, replies: Seq<Reply>, limit: nat) -> (i: nat)
    ensures
        i <= limit,
        forall|j: nat| j < i ==> #[trigger] turn_outcome(volumes, replies, j) is Ended,
        i < limit ==> turn_outcome(volumes, replies, i) is Waiting,
    decreases limit,
{
    if limit == 0 {
        0
    } else {
        let i = lemma_first_waiting(volumes, replies, (limit - 1) as nat);
        if i == limit - 1 && turn_outcome(volumes, replies, i) is Ended {
            limit
        } else {
            i
        }
    }
}

/// When a pass has ended, the automount entry of every EXT volume with a UUID was looked up by that
/// UUID, in the turn of that volume: at once, or right behind the question to the Mount Manager.
pub proof fn law_every_automount_entry_is_looked_up(
    volumes: Seq<VolumeEntry>,
    replies: Seq<Reply>,
    i: nat,
)
    requires
        outcome(pending_automounts_script(volumes), replies, 0) is Ended,
        i < volumes.len(),
        entered(volumes[i as int]),
    ensures
        ({
            let at = turn(volumes, replies, i).at + lookups(volumes[i as int]);
            &&& at < turn(volumes, replies, i + 1).at
            &&& pass_calls(volumes, replies)[at] == (CallView::AutomountLetter {
                uuid: volumes[i as int].uuid->0,
            })
        }),
{
    law_every_volume_has_its_turn(volumes, replies);
    let volume = volumes[i as int];
    let free = free_letters(replies[0]->Mask_0);
    let here = turn(volumes, replies, i);
    let script = volume_script(volume, free, here.report);
    assert(turn_outcome(volumes, replies, i) is Ended);
    lemma_ended(script, replies, here.at);
    law_a_turn_begins_with_the_mount_manager(volume, free, here.report, replies, here.at);
    law_the_automount_entry_is_looked_up(volume, free, here.report, replies, here.at);
    let own = turn_calls(volumes, replies, i);
    assert(own[lookups(volume)] == pass_calls(volumes, replies).subrange(
        here.at as int,
        turn(volumes, replies, i + 1).at as int,
    )[lookups(volume)]);
}

/// When a pass has ended, every letter that it has looked up in the turn of a volume and found not
/// to be bound was tried: the pass went on to bind it, in the same turn.
pub proof fn law_every_letter_found_unbound_is_tried(
    volumes: Seq<VolumeEntry>,
    replies: Seq<Reply>,
    i: nat,
    k: int,
)
    requires
        outcome(pending_automounts_script(volumes), replies, 0) is Ended,
        i < volumes.len(),
        turn(volumes, replies, i).at <= k < turn(volumes, replies, i + 1).at,
        pass_calls(volumes, replies)[k] is QueryDosDevice,
        replies[k]->Target_0 is None,
    ensures
        k + 2 < turn(volumes, replies, i + 1).at,
        pass_calls(volumes, replies)[k + 1] == CallView::IsProcessElevated,
        ({
            let letter = pass_calls(volumes, replies)[k]->QueryDosDevice_letter;
            match pass_calls(volumes, replies)[k + 2] {
                CallView::DefineLocal { letter: bound, .. } => replies[k + 1]->Flag_0 && bound
                    == letter,
                CallView::ServiceDefine { drive, .. } => !replies[k + 1]->Flag_0 && drive
                    == letter as u8,
                _ => false,
            }
        }),
{
    law_every_volume_has_its_turn(volumes, replies);
    let volume = volumes[i as int];
    let free = free_letters(replies[0]->Mask_0);
    let here = turn(volumes, replies, i);
    let script = volume_script(volume, free, here.report);
    assert(turn_outcome(volumes, replies, i) is Ended);
    lemma_ended(script, replies, here.at);
    let own = turn_calls(volumes, replies, i);
    let all = pass_calls(volumes, replies);
    let next = turn(volumes, replies, i + 1).at as int;
    assert forall|j: int| 0 <= j < own.len() implies own[j] == #[trigger] all[here.at + j] by {
        assert(own[j] == all.subrange(here.at as int, next)[j]);
    }
    let j = k - here.at;
    assert(own[j] == all[here.at + j]);
    assert(answered(script, replies, here.at, j));
    law_a_letter_found_unbound_is_bound(volume, free, here.report, replies, here.at, j);
    assert(own[j + 1] == all[here.at + (j + 1)]);
    assert(answered(script, replies, here.at, j + 1));
    assert(own[j + 2] == all[here.at + (j + 2)]);
}

/// The calls of a turn are calls of the pass.
proof fn lemma_turn_in_pass(volumes: Seq<VolumeEntry>, replies: Seq<Reply>, i: nat)
    requires
        outcome(pending_automounts_script(volumes), replies, 0) is Ended,
        i < volumes.len(),
    ensures
        turn(volumes, replies, i + 1).at == turn(volumes, replies, i).at + turn_calls(
            volumes,
            replies,
            i,
        ).len(),
        forall|j: int|
            0 <= j < turn_calls(volumes, replies, i).len() ==> #[trigger] turn_calls(
                volumes,
                replies,
                i,
            )[j] == pass_calls(volumes, replies)[turn(volumes, replies, i).at + j],
        forall|j: int|
            0 <= j < turn_calls(volumes, replies, i).len() ==> #[trigger] answered(
                volume_script(
                    volumes[i as int],
                    free_letters(replies[0]->Mask_0),
                    turn(volumes, replies, i).report,
                ),
                replies,
                turn(volumes, replies, i).at,
                j,
            ),
{
    law_every_volume_has_its_turn(volumes, replies);
    let here = turn(volumes, replies, i);
    let own = turn_calls(volumes, replies, i);
    assert(turn_outcome(volumes, replies, i) is Ended);
    lemma_ended(
        volume_script(volumes[i as int], free_letters(replies[0]->Mask_0), here.report),
        replies,
        here.at,
    );
    let next = turn(volumes, replies, i + 1).at as int;
    assert forall|j: int| 0 <= j < own.len() implies #[trigger] own[j] == pass_calls(
        volumes,
        replies,
    )[here.at + j] by {
        assert(own[j] == pass_calls(volumes, replies).subrange(here.at as int, next)[j]);
    }
}

/// The letter in the automount entry of a volume that is not live is the first that the pass looks
/// up for it, where that letter is one of `C` to `Z` and its digit in the mask of the drives in use
/// is zero. Else it is the lowest letter whose digit is zero.
pub proof fn law_the_letter_of_the_entry_is_tried_first(
    volumes: Seq<VolumeEntry>,
    replies: Seq<Reply>,
    i: nat,
    index: nat,
)
    requires
        outcome(pending_automounts_script(volumes), replies, 0) is Ended,
        i < volumes.len(),
        entered(volumes[i as int]),
        replies[turn(volumes, replies, i).at + lookups(volumes[i as int])]->Letter_0 is Some,
        !(volumes[i as int].letters@.len() > 0 || (volumes[i as int].win32_volume_name@.len() > 0
            && replies[turn(volumes, replies, i).at as int]->Letters_0@.len() > 0)),
        2 <= index < 26,
        (replies[0]->Mask_0 as nat / pow2(index)) % 2 == 0,
    ensures
        ({
            let at = turn(volumes, replies, i).at + lookups(volumes[i as int]);
            let stored = replies[at]->Letter_0->0;
            &&& stored == (65 + index) as char ==> pass_calls(volumes, replies)[at + 1] == (
            CallView::QueryDosDevice { letter: stored })
            &&& !('C' <= stored <= 'Z') && (forall|lower: nat|
                2 <= lower < index
                    ==> (replies[0]->Mask_0 as nat / #[trigger] pow2(lower)) % 2 == 1)
                ==> pass_calls(volumes, replies)[at + 1] == (CallView::QueryDosDevice {
                letter: (65 + index) as char,
            })
            &&& 'C' <= stored <= 'Z' && (replies[0]->Mask_0 as nat / pow2(
                (stored as int - 65) as nat,
            )) % 2 == 1 && (forall|lower: nat|
                2 <= lower < index
                    ==> (replies[0]->Mask_0 as nat / #[trigger] pow2(lower)) % 2 == 1)
                ==> pass_calls(volumes, replies)[at + 1] == (CallView::QueryDosDevice {
                letter: (65 + index) as char,
            })
        }),
{
    let mask = replies[0]->Mask_0;
    let volume = volumes[i as int];
    let free = free_letters(mask);
    let here = turn(volumes, replies, i);
    let script = volume_script(volume, free, here.report);
    let first = lookups(volume);
    let at = here.at + first;
    let stored = replies[at]->Letter_0->0;
    lemma_turn_in_pass(volumes, replies, i);
    law_every_automount_entry_is_looked_up(volumes, replies, i);
    assert(answered(script, replies, here.at, first));
    law_the_stored_letter_first_and_then_the_free_ones(
        volume,
        free,
        here.report,
        replies,
        here.at,
        0,
    );
    law_a_letter_is_free_where_its_digit_is_zero(mask, index);
    law_the_first_free_letter_is_the_lowest(mask, index);
    law_free_letters_are_those_not_in_use(mask, stored);
    if 'C' <= stored <= 'Z' {
        law_a_letter_is_free_where_its_digit_is_zero(mask, (stored as int - 65) as nat);
        assert((65 + (stored as int - 65) as nat) as char == stored);
    }
    assert(free.len() > 0);
    assert(step_after(script, replies, here.at, first + 1) is Call);
    assert(turn_calls(volumes, replies, i)[first + 1]
        == pass_calls(volumes, replies)[here.at + (first
        + 1)]);
}

/// A pass gives up on a volume only where no letter is left for it: every letter from `C` to `Z`
/// whose digit in the mask of the drives in use is zero was looked up in the turn of that volume
/// and found to be bound.
pub proof fn law_a_pass_gives_up_only_where_no_letter_is_left(
    volumes: Seq<VolumeEntry>,
    replies: Seq<Reply>,
    i: nat,
    k: int,
    index: nat,
)
    requires
        outcome(pending_automounts_script(volumes), replies, 0) is Ended,
        i < volumes.len(),
        turn(volumes, replies, i).at <= k < turn(volumes, replies, i + 1).at,
        pass_calls(volumes, replies)[k] is FormatUuid,
        2 <= index < 26,
        (replies[0]->Mask_0 as nat / pow2(index)) % 2 == 0,
    ensures
        exists|x: int|
            turn(volumes, replies, i).at <= x < k && #[trigger] pass_calls(volumes, replies)[x] == (
            CallView::QueryDosDevice { letter: (65 + index) as char })
                && replies[x]->Target_0 is Some,
{
    let mask = replies[0]->Mask_0;
    let volume = volumes[i as int];
    let free = free_letters(mask);
    let here = turn(volumes, replies, i);
    let script = volume_script(volume, free, here.report);
    let letter = (65 + index) as char;
    let own = turn_calls(volumes, replies, i);
    lemma_turn_in_pass(volumes, replies, i);
    law_a_letter_is_free_where_its_digit_is_zero(mask, index);
    let j = k - here.at;
    assert(own[j] == pass_calls(volumes, replies)[here.at + j]);
    if j > 0 {
        assert(answered(script, replies, here.at, j - 1));
    }
    law_giving_up_means_that_every_free_letter_is_bound(
        volume,
        free,
        here.report,
        replies,
        here.at,
        j,
        letter,
    );
    let x = choose|x: int|
        0 <= x < j && #[trigger] own[x] == (CallView::QueryDosDevice { letter }) && replies[here.at
            + x]->Target_0 is Some;
    assert(pass_calls(volumes, replies)[here.at + x] == own[x]);
}

} // verus!
