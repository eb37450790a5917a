//! Reasoning about the calls that a script makes, whatever the replies.
//!
//! A [`Watch`] follows an operation: it keeps a state, which each call and its reply change, and
//! says which calls are in order in which state. A script that [`obeys`] a watch makes only calls
//! that are in order when it makes them, and ends only as the watch allows.

use vstd::prelude::*;

use crate::protocol::{CallView, Reply};
use crate::script::{bind, calls, law_one_reply_for_each_call, outcome, Outcome, Script};

verus! {

/// An observer of an operation.
#[verifier::reject_recursive_types(S)]
pub struct Watch<S> {
    /// The state after a call and its reply.
    pub step: spec_fn(S, CallView, Reply) -> S,
    /// Whether the call is in order in the state.
    pub may: spec_fn(S, CallView) -> bool,
}

/// A call, and the reply that it has taken.
pub struct Exchange {
    pub call: CallView,
    pub reply: Reply,
}

/// What comes next in an operation.
pub enum Step<T> {
    /// It makes the call.
    Call(CallView),
    /// It ends with the value.
    End(T),
}

/// Whether the call at position `i` has taken its reply.
pub open spec fn answered<T>(script: Script<T>, replies: Seq<Reply>, at: nat, i: int) -> bool {
    &&& 0 <= i < calls(script, replies, at).len()
    &&& at + i < replies.len()
    &&& calls(script, replies, at)[i].fits(replies[at + i])
}

/// What comes after the first `count` calls, once they are answered.
pub open spec fn step_after<T>(
    script: Script<T>,
    replies: Seq<Reply>,
    at: nat,
    count: int,
) -> Step<T> {
    if count < calls(script, replies, at).len() {
        Step::Call(calls(script, replies, at)[count])
    } else {
        Step::End(outcome(script, replies, at)->Ended_0)
    }
}

/// The first `count` calls with their replies.
pub open spec fn past<T>(script: Script<T>, replies: Seq<Reply>, at: nat, count: int) -> Seq<
    Exchange,
> {
    Seq::new(
        count as nat,
        |k: int| Exchange { call: calls(script, replies, at)[k], reply: replies[at + k] },
    )
}

/// The watch that keeps everything that has happened, and lets through what the rule allows after
/// it.
pub open spec fn rule_watch<T>(rule: spec_fn(Seq<Exchange>, Step<T>) -> bool) -> Watch<
    Seq<Exchange>,
> {
    Watch {
        step: |before: Seq<Exchange>, call: CallView, reply: Reply|
            before.push(Exchange { call, reply }),
        may: |before: Seq<Exchange>, call: CallView| rule(before, Step::Call(call)),
    }
}

/// The ends that the rule allows.
pub open spec fn rule_end<T>(rule: spec_fn(Seq<Exchange>, Step<T>) -> bool) -> spec_fn(
    Seq<Exchange>,
    T,
) -> bool {
    |before: Seq<Exchange>, value: T| rule(before, Step::End(value))
}

/// The state of the watch after the first `count` calls, which have taken the replies from position
/// `at` on.
pub open spec fn state_after<S>(
    watch: Watch<S>,
    start: S,
    made: Seq<CallView>,
    replies: Seq<Reply>,
    at: nat,
    count: nat,
) -> S
    decreases count,
{
    if count == 0 {
        start
    } else {
        (watch.step)(
            state_after(watch, start, made, replies, at, (count - 1) as nat),
            made[count - 1],
            replies[at + count - 1],
        )
    }
}

/// Whether, from the state on and whatever the replies, each call of the script is in order and
/// each end is allowed.
pub open spec fn obeys<S, T>(
    script: Script<T>,
    state: S,
    watch: Watch<S>,
    end: spec_fn(S, T) -> bool,
) -> bool
    decreases script,
{
    match script {
        Script::Done(value) => end(state, value),
        Script::Ask(call, next) => (watch.may)(state, call) && forall|reply: Reply|
            call.fits(reply) ==> obeys(
                #[trigger] next(reply),
                (watch.step)(state, call, reply),
                watch,
                end,
            ),
    }
}

/// Whether the script ends after at most so many calls, whatever the replies.
pub open spec fn ends_within<T>(script: Script<T>, limit: nat) -> bool
    decreases script,
{
    match script {
        Script::Done(_) => true,
        Script::Ask(call, next) => limit > 0 && forall|reply: Reply|
            call.fits(reply) ==> ends_within(#[trigger] next(reply), (limit - 1) as nat),
    }
}

proof fn lemma_state_shift<S>(
    watch: Watch<S>,
    start: S,
    call: CallView,
    rest: Seq<CallView>,
    replies: Seq<Reply>,
    at: nat,
    count: nat,
)
    requires
        count <= rest.len(),
    ensures
        state_after(watch, start, seq![call] + rest, replies, at, count + 1) == state_after(
            watch,
            (watch.step)(start, call, replies[at as int]),
            rest,
            replies,
            at + 1,
            count,
        ),
    decreases count,
{
    let made = seq![call] + rest;
    if count == 0 {
        assert(state_after(watch, start, made, replies, at, 0) == start);
        assert(made[0] == call);
    } else {
        lemma_state_shift(watch, start, call, rest, replies, at, (count - 1) as nat);
        assert(made[count as int] == rest[count - 1]);
    }
}

/// A script that obeys a watch makes only calls that are in order, and ends as is allowed.
pub proof fn lemma_obeys<S, T>(
    script: Script<T>,
    start: S,
    watch: Watch<S>,
    end: spec_fn(S, T) -> bool,
    replies: Seq<Reply>,
    at: nat,
)
    requires
        obeys(script, start, watch, end),
    ensures
        ({
            let made = calls(script, replies, at);
            &&& forall|i: int|
                0 <= i < made.len() ==> (watch.may)(
                    state_after(watch, start, made, replies, at, i as nat),
                    #[trigger] made[i],
                )
            &&& outcome(script, replies, at) matches Outcome::Ended(value, _) ==> end(
                state_after(watch, start, made, replies, at, made.len()),
                value,
            )
        }),
    decreases script,
{
    match script {
        Script::Done(value) => {},
        Script::Ask(call, next) => {
            if at < replies.len() && call.fits(replies[at as int]) {
                let reply = replies[at as int];
                let state = (watch.step)(start, call, reply);
                let rest = calls(next(reply), replies, at + 1);
                let made = calls(script, replies, at);
                lemma_obeys(next(reply), state, watch, end, replies, at + 1);
                assert(made == seq![call] + rest);
                assert forall|i: int| 0 <= i < made.len() implies (watch.may)(
                    state_after(watch, start, made, replies, at, i as nat),
                    #[trigger] made[i],
                ) by {
                    if i > 0 {
                        assert(made[i] == rest[i - 1]);
                        lemma_state_shift(
                            watch,
                            start,
                            call,
                            rest,
                            replies,
                            at,
                            (i - 1) as nat,
                        );
                    }
                }
                lemma_state_shift(watch, start, call, rest, replies, at, rest.len());
            }
        },
    }
}

/// After a call that was answered comes another one or the end; and the calls before it were
/// answered too.
pub proof fn lemma_answered<T>(script: Script<T>, replies: Seq<Reply>, at: nat, i: int)
    requires
        answered(script, replies, at, i),
    ensures
        i + 1 < calls(script, replies, at).len() || outcome(script, replies, at) is Ended,
        forall|k: int| 0 <= k <= i ==> answered(script, replies, at, k),
    decreases script,
{
    law_one_reply_for_each_call(script, replies, at);
    match script {
        Script::Done(_) => {},
        Script::Ask(call, next) => {
            let rest = calls(next(replies[at as int]), replies, at + 1);
            if at < replies.len() && call.fits(replies[at as int]) {
                assert(calls(script, replies, at) == seq![call] + rest);
                if i > 0 {
                    assert(calls(script, replies, at)[i] == rest[i - 1]);
                    lemma_answered(next(replies[at as int]), replies, at + 1, i - 1);
                } else if rest.len() == 0 {
                    law_one_reply_for_each_call(next(replies[at as int]), replies, at + 1);
                }
            }
        },
    }
}

proof fn lemma_state_is_past<T>(
    script: Script<T>,
    rule: spec_fn(Seq<Exchange>, Step<T>) -> bool,
    replies: Seq<Reply>,
    at: nat,
    count: nat,
)
    requires
        count <= calls(script, replies, at).len(),
    ensures
        state_after(
            rule_watch(rule),
            Seq::<Exchange>::empty(),
            calls(script, replies, at),
            replies,
            at,
            count,
        ) == past(script, replies, at, count as int),
    decreases count,
{
    if count > 0 {
        lemma_state_is_past(script, rule, replies, at, (count - 1) as nat);
        assert(past(script, replies, at, count - 1).push(
            Exchange {
                call: calls(script, replies, at)[count - 1],
                reply: replies[at + count - 1],
            },
        ) == past(script, replies, at, count as int));
    } else {
        assert(past(script, replies, at, 0) == Seq::<Exchange>::empty());
    }
}

/// The steps of a script that keeps a rule: what comes first, and what comes after each call that
/// was answered, is what the rule allows there.
pub proof fn lemma_rule<T>(
    script: Script<T>,
    rule: spec_fn(Seq<Exchange>, Step<T>) -> bool,
    replies: Seq<Reply>,
    at: nat,
    count: int,
)
    requires
        obeys(script, Seq::<Exchange>::empty(), rule_watch(rule), rule_end(rule)),
        count == 0 || answered(script, replies, at, count - 1),
    ensures
        rule(past(script, replies, at, count), step_after(script, replies, at, count)),
        past(script, replies, at, count).len() == count,
{
    lemma_obeys(script, Seq::<Exchange>::empty(), rule_watch(rule), rule_end(rule), replies, at);
    lemma_state_is_past(script, rule, replies, at, count as nat);
    if count > 0 {
        lemma_answered(script, replies, at, count - 1);
    } else {
        law_one_reply_for_each_call(script, replies, at);
    }
    if count < calls(script, replies, at).len() {
        let call = calls(script, replies, at)[count];
        assert((rule_watch(rule).may)(past(script, replies, at, count), call));
    } else {
        assert(rule_end(rule)(
            past(script, replies, at, count),
            outcome(script, replies, at)->Ended_0,
        ));
    }
}

/// An operation that has ended has done so after its last call was answered.
pub proof fn lemma_ended<T>(script: Script<T>, replies: Seq<Reply>, at: nat)
    requires
        outcome(script, replies, at) is Ended,
    ensures
        forall|i: int|
            0 <= i < calls(script, replies, at).len() ==> answered(script, replies, at, i),
        outcome(script, replies, at)->Ended_1 == at + calls(script, replies, at).len(),
        step_after(script, replies, at, calls(script, replies, at).len() as int) == Step::End(
            outcome(script, replies, at)->Ended_0,
        ),
{
    law_one_reply_for_each_call(script, replies, at);
}

/// Two scripts in a row obey a watch where the second does from each state and value that the first
/// may end with.
pub proof fn lemma_obeys_bind<S, A, B>(
    first: Script<A>,
    onward: spec_fn(A) -> Script<B>,
    state: S,
    watch: Watch<S>,
    between: spec_fn(S, A) -> bool,
    end: spec_fn(S, B) -> bool,
)
    requires
        obeys(first, state, watch, between),
        forall|later: S, value: A| #[trigger]
            between(later, value) ==> obeys(onward(value), later, watch, end),
    ensures
        obeys(bind(first, onward), state, watch, end),
    decreases first,
{
    match first {
        Script::Done(value) => {},
        Script::Ask(call, next) => {
            let script = bind(first, onward);
            let after = script->Ask_1;
            assert forall|reply: Reply| call.fits(reply) implies obeys(
                #[trigger] after(reply),
                (watch.step)(state, call, reply),
                watch,
                end,
            ) by {
                lemma_obeys_bind(
                    next(reply),
                    onward,
                    (watch.step)(state, call, reply),
                    watch,
                    between,
                    end,
                );
                assert(after(reply) == bind(next(reply), onward));
            }
        },
    }
}

/// [`lemma_obeys_bind`] for every continuation.
pub proof fn lemma_obeys_bind_any<S, A, B>(
    first: Script<A>,
    state: S,
    watch: Watch<S>,
    between: spec_fn(S, A) -> bool,
    end: spec_fn(S, B) -> bool,
)
    requires
        obeys(first, state, watch, between),
    ensures
        forall|onward: spec_fn(A) -> Script<B>|
            (forall|later: S, value: A| #[trigger]
                between(later, value) ==> obeys(onward(value), later, watch, end))
                ==> #[trigger] obeys(bind(first, onward), state, watch, end),
{
    assert forall|onward: spec_fn(A) -> Script<B>|
        (forall|later: S, value: A| #[trigger]
            between(later, value) ==> obeys(
                onward(value),
                later,
                watch,
                end,
            )) implies #[trigger] obeys(bind(first, onward), state, watch, end) by {
        lemma_obeys_bind(first, onward, state, watch, between, end);
    }
}

/// A script that allows less at its end obeys the watch that allows more.
pub proof fn lemma_obeys_weaken<S, T>(
    script: Script<T>,
    state: S,
    watch: Watch<S>,
    strict: spec_fn(S, T) -> bool,
    end: spec_fn(S, T) -> bool,
)
    requires
        obeys(script, state, watch, strict),
        forall|later: S, value: T| #[trigger] strict(later, value) ==> end(later, value),
    ensures
        obeys(script, state, watch, end),
    decreases script,
{
    match script {
        Script::Done(value) => {},
        Script::Ask(call, next) => {
            assert forall|reply: Reply| call.fits(reply) implies obeys(
                #[trigger] next(reply),
                (watch.step)(state, call, reply),
                watch,
                end,
            ) by {
                lemma_obeys_weaken(
                    next(reply),
                    (watch.step)(state, call, reply),
                    watch,
                    strict,
                    end,
                );
            }
        },
    }
}

/// A script that obeys a watch obeys any watch that sees less and allows more.
pub proof fn lemma_obeys_seen_as<S, R, T>(
    script: Script<T>,
    state: S,
    watch: Watch<S>,
    end: spec_fn(S, T) -> bool,
    seen: spec_fn(S) -> R,
    wider: Watch<R>,
    wider_end: spec_fn(R, T) -> bool,
)
    requires
        obeys(script, state, watch, end),
        forall|s: S, call: CallView, reply: Reply|
            seen(#[trigger] (watch.step)(s, call, reply)) == (wider.step)(seen(s), call, reply),
        forall|s: S, call: CallView| #[trigger]
            (watch.may)(s, call) ==> (wider.may)(seen(s), call),
        forall|s: S, value: T| #[trigger] end(s, value) ==> wider_end(seen(s), value),
    ensures
        obeys(script, seen(state), wider, wider_end),
    decreases script,
{
    match script {
        Script::Done(value) => {},
        Script::Ask(call, next) => {
            assert forall|reply: Reply| call.fits(reply) implies obeys(
                #[trigger] next(reply),
                (wider.step)(seen(state), call, reply),
                wider,
                wider_end,
            ) by {
                lemma_obeys_seen_as(
                    next(reply),
                    (watch.step)(state, call, reply),
                    watch,
                    end,
                    seen,
                    wider,
                    wider_end,
                );
            }
        },
    }
}

/// A script makes no more calls than the number within which it ends.
pub proof fn lemma_ends_within<T>(script: Script<T>, limit: nat, replies: Seq<Reply>, at: nat)
    requires
        ends_within(script, limit),
    ensures
        calls(script, replies, at).len() <= limit,
    decreases script,
{
    match script {
        Script::Done(value) => {},
        Script::Ask(call, next) => {
            if at < replies.len() && call.fits(replies[at as int]) {
                lemma_ends_within(next(replies[at as int]), (limit - 1) as nat, replies, at + 1);
            }
        },
    }
}

/// Two scripts in a row end within the sum of what each ends within.
pub proof fn lemma_ends_within_bind<A, B>(
    first: Script<A>,
    onward: spec_fn(A) -> Script<B>,
    limit: nat,
    more: nat,
)
    requires
        ends_within(first, limit),
        forall|value: A| ends_within(#[trigger] onward(value), more),
    ensures
        ends_within(bind(first, onward), limit + more),
    decreases first,
{
    match first {
        Script::Done(value) => {
            lemma_ends_within_longer(onward(value), more, limit + more);
        },
        Script::Ask(call, next) => {
            let after = bind(first, onward)->Ask_1;
            assert forall|reply: Reply| call.fits(reply) implies ends_within(
                #[trigger] after(reply),
                (limit + more - 1) as nat,
            ) by {
                lemma_ends_within_bind(next(reply), onward, (limit - 1) as nat, more);
                assert(after(reply) == bind(next(reply), onward));
            }
        },
    }
}

/// Holds of every value; a handle for statements about all of them.
pub open spec fn is_value<A>(value: A) -> bool {
    true
}

/// [`lemma_ends_within_bind`] for every continuation.
pub proof fn lemma_ends_within_bind_any<A, B>(first: Script<A>, limit: nat, more: nat)
    requires
        ends_within(first, limit),
    ensures
        forall|onward: spec_fn(A) -> Script<B>|
            (forall|value: A| #[trigger] is_value(value) ==> ends_within(onward(value), more))
                ==> ends_within(#[trigger] bind(first, onward), limit + more),
{
    assert forall|onward: spec_fn(A) -> Script<B>|
        (forall|value: A| #[trigger] is_value(value) ==> ends_within(
            onward(value),
            more,
        )) implies ends_within(#[trigger] bind(first, onward), limit + more) by {
        assert forall|value: A| ends_within(#[trigger] onward(value), more) by {
            assert(is_value(value));
        }
        lemma_ends_within_bind(first, onward, limit, more);
    }
}

proof fn lemma_ends_within_longer<T>(script: Script<T>, limit: nat, longer: nat)
    requires
        ends_within(script, limit),
        limit <= longer,
    ensures
        ends_within(script, longer),
    decreases script,
{
    match script {
        Script::Done(value) => {},
        Script::Ask(call, next) => {
            assert forall|reply: Reply| call.fits(reply) implies ends_within(
                #[trigger] next(reply),
                (longer - 1) as nat,
            ) by {
                lemma_ends_within_longer(next(reply), (limit - 1) as nat, (longer - 1) as nat);
            }
        },
    }
}

} // verus!
