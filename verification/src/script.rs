//! What an operation may do, as a mathematical object: the calls that it makes one after another,
//! each chosen by the replies before it, and the value that it ends with.

use vstd::prelude::*;

use crate::protocol::{Call, CallView, Reply};

verus! {

/// An operation from here on.
pub enum Script<T> {
    /// It has ended with the value.
    Done(T),
    /// It makes the call and goes on as the reply tells it.
    Ask(CallView, spec_fn(Reply) -> Script<T>),
}

/// How far a list of replies takes an operation.
pub enum Outcome<T> {
    /// The call has no reply yet that answers it.
    Waiting(CallView),
    /// It ended with the value, having taken the replies before this position.
    Ended(T, nat),
}

/// How far the replies from position `at` on take the script. A call takes one reply, of the kind
/// that answers it; it waits as long as no such reply stands at its position.
pub open spec fn outcome<T>(script: Script<T>, replies: Seq<Reply>, at: nat) -> Outcome<T>
    decreases script,
{
    match script {
        Script::Done(value) => Outcome::Ended(value, at),
        Script::Ask(call, next) => if at < replies.len() && call.fits(replies[at as int]) {
            outcome(next(replies[at as int]), replies, at + 1)
        } else {
            Outcome::Waiting(call)
        },
    }
}

/// The calls that the script makes when it is given the replies from position `at` on. The call at
/// position `i` of this list has taken the reply at position `at + i`, but for a last call that
/// still waits.
pub open spec fn calls<T>(script: Script<T>, replies: Seq<Reply>, at: nat) -> Seq<CallView>
    decreases script,
{
    match script {
        Script::Done(_) => Seq::empty(),
        Script::Ask(call, next) => if at < replies.len() && call.fits(replies[at as int]) {
            seq![call] + calls(next(replies[at as int]), replies, at + 1)
        } else {
            seq![call]
        },
    }
}

/// The first script, and then the one that its value tells.
pub open spec fn bind<A, B>(first: Script<A>, onward: spec_fn(A) -> Script<B>) -> Script<B>
    decreases first,
{
    match first {
        Script::Done(value) => onward(value),
        Script::Ask(call, next) => Script::Ask(call, |reply: Reply| bind(next(reply), onward)),
    }
}

/// A type whose values stand for mathematical ones.
pub trait Modeled {
    type Model;

    spec fn model(&self) -> Self::Model;
}

impl Modeled for bool {
    type Model = bool;

    open spec fn model(&self) -> bool {
        *self
    }
}

impl Modeled for Option<char> {
    type Model = Option<char>;

    open spec fn model(&self) -> Option<char> {
        *self
    }
}

impl Modeled for Result<(), String> {
    type Model = Result<(), Seq<char>>;

    open spec fn model(&self) -> Result<(), Seq<char>> {
        match *self {
            Ok(_) => Ok(()),
            Err(reason) => Err(reason@),
        }
    }
}

impl Modeled for Result<String, String> {
    type Model = Result<Seq<char>, Seq<char>>;

    open spec fn model(&self) -> Result<Seq<char>, Seq<char>> {
        match *self {
            Ok(text) => Ok(text@),
            Err(reason) => Err(reason@),
        }
    }
}

/// What an operation says when it is given the replies so far.
#[derive(Debug, PartialEq, Eq)]
pub enum Progress<T> {
    /// This call comes next.
    Ask(Call),
    /// It has ended with the value, having taken the replies before the position `used`.
    Done { value: T, used: usize },
}

impl<T: Modeled> Progress<T> {
    /// The outcome that is reported.
    pub open spec fn outcome(&self) -> Outcome<T::Model> {
        match *self {
            Progress::Ask(call) => Outcome::Waiting(call@),
            Progress::Done { value, used } => Outcome::Ended(value.model(), used as nat),
        }
    }
}

/// The outcome of two scripts in a row: that of the second, from where the first has ended.
pub proof fn lemma_outcome_bind<A, B>(
    first: Script<A>,
    onward: spec_fn(A) -> Script<B>,
    replies: Seq<Reply>,
    at: nat,
)
    ensures
        outcome(bind(first, onward), replies, at) == (match outcome(first, replies, at) {
            Outcome::Waiting(call) => Outcome::<B>::Waiting(call),
            Outcome::Ended(value, stop) => outcome(onward(value), replies, stop),
        }),
    decreases first,
{
    match first {
        Script::Done(value) => {},
        Script::Ask(call, next) => {
            if at < replies.len() && call.fits(replies[at as int]) {
                lemma_outcome_bind(next(replies[at as int]), onward, replies, at + 1);
            }
        },
    }
}

/// [`lemma_outcome_bind`] for every continuation.
pub proof fn lemma_outcome_bind_any<A, B>(first: Script<A>, replies: Seq<Reply>, at: nat)
    ensures
        forall|onward: spec_fn(A) -> Script<B>| #[trigger]
            outcome(bind(first, onward), replies, at) == (match outcome(first, replies, at) {
                Outcome::Waiting(call) => Outcome::<B>::Waiting(call),
                Outcome::Ended(value, stop) => outcome(onward(value), replies, stop),
            }),
{
    assert forall|onward: spec_fn(A) -> Script<B>| #[trigger]
        outcome(bind(first, onward), replies, at) == (match outcome(first, replies, at) {
            Outcome::Waiting(call) => Outcome::<B>::Waiting(call),
            Outcome::Ended(value, stop) => outcome(onward(value), replies, stop),
        }) by {
        lemma_outcome_bind(first, onward, replies, at);
    }
}

/// The calls of two scripts in a row: those of the first and, once it has ended, those of the
/// second.
pub proof fn lemma_calls_bind<A, B>(
    first: Script<A>,
    onward: spec_fn(A) -> Script<B>,
    replies: Seq<Reply>,
    at: nat,
)
    ensures
        calls(bind(first, onward), replies, at) == (match outcome(first, replies, at) {
            Outcome::Waiting(_) => calls(first, replies, at),
            Outcome::Ended(value, stop) => calls(first, replies, at) + calls(
                onward(value),
                replies,
                stop,
            ),
        }),
    decreases first,
{
    match first {
        Script::Done(value) => {
            assert(Seq::<CallView>::empty() + calls(onward(value), replies, at) == calls(
                onward(value),
                replies,
                at,
            ));
        },
        Script::Ask(call, next) => {
            if at < replies.len() && call.fits(replies[at as int]) {
                let rest = next(replies[at as int]);
                lemma_calls_bind(rest, onward, replies, at + 1);
                match outcome(rest, replies, at + 1) {
                    Outcome::Waiting(_) => {},
                    Outcome::Ended(value, stop) => {
                        assert(seq![call] + (calls(rest, replies, at + 1) + calls(
                            onward(value),
                            replies,
                            stop,
                        )) == seq![call] + calls(rest, replies, at + 1) + calls(
                            onward(value),
                            replies,
                            stop,
                        ));
                    },
                }
            }
        },
    }
}

/// [`lemma_calls_bind`] for every continuation.
pub proof fn lemma_calls_bind_any<A, B>(first: Script<A>, replies: Seq<Reply>, at: nat)
    ensures
        forall|onward: spec_fn(A) -> Script<B>| #[trigger]
            calls(bind(first, onward), replies, at) == (match outcome(first, replies, at) {
                Outcome::Waiting(_) => calls(first, replies, at),
                Outcome::Ended(value, stop) => calls(first, replies, at) + calls(
                    onward(value),
                    replies,
                    stop,
                ),
            }),
{
    assert forall|onward: spec_fn(A) -> Script<B>| #[trigger]
        calls(bind(first, onward), replies, at) == (match outcome(first, replies, at) {
            Outcome::Waiting(_) => calls(first, replies, at),
            Outcome::Ended(value, stop) => calls(first, replies, at) + calls(
                onward(value),
                replies,
                stop,
            ),
        }) by {
        lemma_calls_bind(first, onward, replies, at);
    }
}

/// The replies before its position do not matter to a script.
pub proof fn lemma_outcome_from<T>(
    script: Script<T>,
    replies: Seq<Reply>,
    others: Seq<Reply>,
    at: nat,
)
    requires
        replies.len() == others.len(),
        forall|i: int| at <= i < replies.len() ==> replies[i] == others[i],
    ensures
        outcome(script, replies, at) == outcome(script, others, at),
    decreases script,
{
    match script {
        Script::Done(value) => {},
        Script::Ask(call, next) => {
            if at < replies.len() && call.fits(replies[at as int]) {
                lemma_outcome_from(next(replies[at as int]), replies, others, at + 1);
            }
        },
    }
}

/// Replies that come later change nothing of what the earlier ones have led to: the calls made stay
/// made, in their order, and an operation that has ended stays ended with the same value.
pub proof fn law_replies_are_final<T>(
    script: Script<T>,
    replies: Seq<Reply>,
    more: Seq<Reply>,
    at: nat,
)
    ensures
        calls(script, replies, at).is_prefix_of(calls(script, replies + more, at)),
        outcome(script, replies, at) is Ended ==> outcome(script, replies + more, at) == outcome(
            script,
            replies,
            at,
        ),
    decreases script,
{
    match script {
        Script::Done(value) => {},
        Script::Ask(call, next) => {
            if at < replies.len() && call.fits(replies[at as int]) {
                assert((replies + more)[at as int] == replies[at as int]);
                law_replies_are_final(next(replies[at as int]), replies, more, at + 1);
                let onward = calls(next(replies[at as int]), replies, at + 1);
                let longer = calls(next(replies[at as int]), replies + more, at + 1);
                assert(calls(script, replies, at) == seq![call] + onward);
                assert(calls(script, replies + more, at) == seq![call] + longer);
                assert((seq![call] + longer).take(1 + onward.len() as int) == seq![call]
                    + longer.take(onward.len() as int));
            }
        },
    }
}

/// Each call takes exactly one reply, of the kind that answers it. An operation that waits does so
/// on the last call that it made.
pub proof fn law_one_reply_for_each_call<T>(script: Script<T>, replies: Seq<Reply>, at: nat)
    ensures
        match outcome(script, replies, at) {
            Outcome::Ended(_, stop) => {
                &&& stop == at + calls(script, replies, at).len()
                &&& stop == at || stop <= replies.len()
                &&& forall|i: int|
                    0 <= i < calls(script, replies, at).len() ==> (#[trigger] calls(
                        script,
                        replies,
                        at,
                    )[i]).fits(replies[at + i])
            },
            Outcome::Waiting(call) => {
                let made = calls(script, replies, at);
                &&& made.len() > 0
                &&& made.last() == call
                &&& made.len() == 1 || at + made.len() - 1 <= replies.len()
                &&& forall|i: int|
                    0 <= i < made.len() - 1 ==> (#[trigger] made[i]).fits(replies[at + i])
            },
        },
    decreases script,
{
    match script {
        Script::Done(value) => {},
        Script::Ask(call, next) => {
            if at < replies.len() && call.fits(replies[at as int]) {
                let onward = calls(next(replies[at as int]), replies, at + 1);
                law_one_reply_for_each_call(next(replies[at as int]), replies, at + 1);
                let made = calls(script, replies, at);
                assert(made == seq![call] + onward);
                assert forall|i: int| 0 < i < made.len() implies made[i] == onward[i - 1] by {}
            }
        },
    }
}

/// An operation that waits, and has taken all the replies, takes the next one if it answers the
/// call: then it has ended, or has made one call more.
pub proof fn law_an_answer_moves_on<T>(
    script: Script<T>,
    replies: Seq<Reply>,
    at: nat,
    reply: Reply,
)
    requires
        outcome(script, replies, at) is Waiting,
        at + calls(script, replies, at).len() == replies.len() + 1,
        outcome(script, replies, at)->Waiting_0.fits(reply),
    ensures
        outcome(script, replies.push(reply), at) is Ended || calls(
            script,
            replies.push(reply),
            at,
        ).len() == calls(script, replies, at).len() + 1,
    decreases script,
{
    match script {
        Script::Done(value) => {},
        Script::Ask(call, next) => {
            if at < replies.len() && call.fits(replies[at as int]) {
                assert(replies.push(reply)[at as int] == replies[at as int]);
                law_an_answer_moves_on(next(replies[at as int]), replies, at + 1, reply);
            } else {
                assert(at == replies.len());
                assert(replies.push(reply)[at as int] == reply);
                reveal_with_fuel(outcome, 2);
                reveal_with_fuel(calls, 2);
            }
        },
    }
}

/// The replies after a caller has answered every call until the script has ended, where it answers
/// a call by what came before it.
pub open spec fn dialogue<T>(
    script: Script<T>,
    answer: spec_fn(Seq<Reply>, CallView) -> Reply,
    replies: Seq<Reply>,
) -> Seq<Reply>
    decreases script,
{
    match script {
        Script::Done(_) => replies,
        Script::Ask(call, next) => dialogue(
            next(answer(replies, call)),
            answer,
            replies.push(answer(replies, call)),
        ),
    }
}

proof fn lemma_dialogue_extends<T>(
    script: Script<T>,
    answer: spec_fn(Seq<Reply>, CallView) -> Reply,
    replies: Seq<Reply>,
)
    ensures
        replies.is_prefix_of(dialogue(script, answer, replies)),
    decreases script,
{
    match script {
        Script::Done(_) => {},
        Script::Ask(call, next) => {
            let reply = answer(replies, call);
            lemma_dialogue_extends(next(reply), answer, replies.push(reply));
            let all = dialogue(next(reply), answer, replies.push(reply));
            assert forall|i: int| 0 <= i < replies.len() implies replies[i] == all[i] by {
                assert(replies.push(reply)[i] == all[i]);
            }
        },
    }
}

/// Every operation ends, whoever answers its calls and however, as long as each answer is of the
/// right kind; and it takes every reply.
pub proof fn law_every_operation_ends<T>(
    script: Script<T>,
    answer: spec_fn(Seq<Reply>, CallView) -> Reply,
    replies: Seq<Reply>,
)
    requires
        forall|before: Seq<Reply>, call: CallView| call.fits(#[trigger] answer(before, call)),
    ensures
        outcome(script, dialogue(script, answer, replies), replies.len()) matches Outcome::Ended(
            _,
            stop,
        ) && stop == dialogue(script, answer, replies).len(),
    decreases script,
{
    match script {
        Script::Done(_) => {},
        Script::Ask(call, next) => {
            let reply = answer(replies, call);
            let all = dialogue(next(reply), answer, replies.push(reply));
            lemma_dialogue_extends(next(reply), answer, replies.push(reply));
            assert(all[replies.len() as int] == replies.push(reply)[replies.len() as int]);
            law_every_operation_ends(next(reply), answer, replies.push(reply));
        },
    }
}

/// A value stands for itself, a text for its characters; and what an operation says is what it has
/// come to: the call that it waits on, or the value that it has ended with and the replies it took.
pub proof fn law_what_progress_says(
    yes: bool,
    letter: Option<char>,
    done: Result<(), String>,
    text: Result<String, String>,
    call: Call,
    used: usize,
)
    ensures
        yes.model() == yes,
        letter.model() == letter,
        done is Ok <==> done.model() is Ok,
        done is Err ==> done.model() == Err::<(), Seq<char>>(done->Err_0@),
        text is Ok ==> text.model() == Ok::<Seq<char>, Seq<char>>(text->Ok_0@),
        text is Err ==> text.model() == Err::<Seq<char>, Seq<char>>(text->Err_0@),
        Progress::<bool>::Ask(call).outcome() == Outcome::<bool>::Waiting(call@),
        (Progress::<bool>::Done { value: yes, used }).outcome() == Outcome::<bool>::Ended(
            yes,
            used as nat,
        ),
{
}

} // verus!
