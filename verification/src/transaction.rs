//! Registering shortcuts with the system, all four or none.

use crate::hotkey::{copy_keys, HotKey};
use vstd::prelude::*;
use vstd::string::*;

verus! {

/// What can be asked of the system for a shortcut.
pub enum Operation {
    Register,
    Unregister,
}

/// One thing asked of the system.
pub struct Request {
    pub operation: Operation,
    pub key: HotKey,
}

/// One thing asked of the system, and what it answered.
pub struct Call {
    pub request: Request,
    pub answer: Result<(), Seq<char>>,
}

/// An answer with its message taken by its view.
pub open spec fn answer_view(answer: Result<(), String>) -> Result<(), Seq<char>> {
    match answer {
        Ok(_) => Ok(()),
        Err(message) => Err(message@),
    }
}

pub open spec fn call_of(operation: Operation, key: HotKey, answer: Result<(), String>) -> Call {
    Call { request: Request { operation, key }, answer: answer_view(answer) }
}

/// The part of the system that shortcuts are registered with. Nothing is
/// supposed of what it answers, only that it keeps count of what it is asked.
pub trait ShortcutBackend {
    /// Everything that has been asked of the backend, and what it answered, in
    /// order. A backend that is verified defines it; of any other it stands for
    /// the calls that were made on it.
    closed spec fn asked(&self) -> Seq<Call> {
        Seq::empty()
    }

    fn register(&mut self, key: &HotKey) -> (answer: Result<(), String>)
        ensures
            final(self).asked() == old(self).asked().push(
                call_of(Operation::Register, *key, answer),
            ),
    ;

    fn unregister(&mut self, key: &HotKey) -> (answer: Result<(), String>)
        ensures
            final(self).asked() == old(self).asked().push(
                call_of(Operation::Unregister, *key, answer),
            ),
    ;
}

pub open spec fn requests_of(calls: Seq<Call>) -> Seq<Request> {
    calls.map_values(|call: Call| call.request)
}

pub open spec fn answers_of(calls: Seq<Call>) -> Seq<Result<(), Seq<char>>> {
    calls.map_values(|call: Call| call.answer)
}

/// What has been asked since an earlier state of a history.
pub open spec fn calls_since(before: Seq<Call>, after: Seq<Call>) -> Seq<Call> {
    after.skip(before.len() as int)
}

/// Whether a history goes on from an earlier state of it.
pub open spec fn continues(before: Seq<Call>, after: Seq<Call>) -> bool {
    before.len() <= after.len() && after.take(before.len() as int) == before
}

/// The same operation on each shortcut in turn.
pub open spec fn each(operation: Operation, keys: Seq<HotKey>) -> Seq<Request> {
    keys.map_values(|key: HotKey| Request { operation, key })
}

/// Whether shortcuts with this identity are among `keys`.
pub open spec fn has_id(keys: Seq<HotKey>, id: u32) -> bool {
    exists|i: int| 0 <= i < keys.len() && (#[trigger] keys[i])@.id == id
}

/// The shortcuts whose operation failed, in order.
pub open spec fn failed(keys: Seq<HotKey>, answers: Seq<Result<(), Seq<char>>>) -> Seq<HotKey>
    decreases keys.len(),
{
    if keys.len() == 0 {
        Seq::empty()
    } else {
        let before = failed(keys.drop_last(), answers.drop_last());
        if answers.last() is Err {
            before.push(keys.last())
        } else {
            before
        }
    }
}

/// The shortcuts whose operation failed, one of each identity, in order.
pub open spec fn unconfirmed(keys: Seq<HotKey>, answers: Seq<Result<(), Seq<char>>>) -> Seq<HotKey>
    decreases keys.len(),
{
    if keys.len() == 0 {
        Seq::empty()
    } else {
        let before = unconfirmed(keys.drop_last(), answers.drop_last());
        if answers.last() is Err && !has_id(before, keys.last()@.id) {
            before.push(keys.last())
        } else {
            before
        }
    }
}

/// The place of the first failure among the first `count` answers, and `count`
/// where there is none.
pub open spec fn first_failure(count: nat, answers: Seq<Result<(), Seq<char>>>) -> int
    decreases count,
{
    if count == 0 {
        0
    } else {
        let earlier = first_failure((count - 1) as nat, answers);
        if earlier < count - 1 || answers[count - 1] is Err {
            earlier
        } else {
            count as int
        }
    }
}

/// How a replacement of shortcuts came out.
#[derive(Debug, Clone, Copy, PartialEq, Eq, Structural)]
pub enum TransactionState {
    /// The new shortcuts are registered.
    NewActive,
    /// The shortcuts from before are registered again.
    PreviousActive,
    /// No shortcut is registered.
    Inactive,
    /// Some shortcuts could not be released and may still be registered.
    Unknown,
}

/// The outcome of a replacement of shortcuts.
#[derive(Debug)]
pub struct ShortcutTransaction {
    pub state: TransactionState,
    pub message: String,
    pub known_active: Vec<HotKey>,
    pub uncertain: Vec<HotKey>,
}

/// What a `ShortcutTransaction` stands for.
pub struct TransactionView {
    pub state: TransactionState,
    pub message: Seq<char>,
    pub known_active: Seq<HotKey>,
    pub uncertain: Seq<HotKey>,
}

impl View for ShortcutTransaction {
    type V = TransactionView;

    open spec fn view(&self) -> TransactionView {
        TransactionView {
            state: self.state,
            message: self.message@,
            known_active: self.known_active@,
            uncertain: self.uncertain@,
        }
    }
}

/// The course of a replacement: what is asked, and the outcome.
pub struct Transcript {
    pub requests: Seq<Request>,
    pub outcome: TransactionView,
}

/// The outcome in which nothing is known to be registered.
pub open spec fn nothing_known(message: Seq<char>, uncertain: Seq<HotKey>) -> TransactionView {
    TransactionView {
        state: if uncertain.len() == 0 {
            TransactionState::Inactive
        } else {
            TransactionState::Unknown
        },
        message,
        known_active: Seq::empty(),
        uncertain,
    }
}

/// The course where some of the previous shortcuts could not be released: the
/// release of each of those is tried once more.
pub open spec fn release_failed(
    previous: Seq<HotKey>,
    answers: Seq<Result<(), Seq<char>>>,
) -> Transcript {
    let count = previous.len();
    let retried = failed(previous, answers.take(count as int)).reverse();
    let uncertain = unconfirmed(retried, answers.skip(count as int).take(retried.len() as int));
    let detail = answers[first_failure(count, answers)]->Err_0;
    Transcript {
        requests: each(Operation::Unregister, previous) + each(Operation::Unregister, retried),
        outcome: nothing_known(
            "Could not release shortcuts: "@ + detail + (if uncertain.len() == 0 {
                "; cleanup confirmed none active"@
            } else {
                "; shortcut state unknown/degraded"@
            }),
            uncertain,
        ),
    }
}

/// The course of restoring the previous shortcuts after `error`, once the new
/// ones that were registered have been released again.
pub open spec fn rolled_back(
    previous: Seq<HotKey>,
    error: Seq<char>,
    answers: Seq<Result<(), Seq<char>>>,
) -> Transcript {
    let restored = first_failure(previous.len(), answers);
    if restored == previous.len() {
        Transcript {
            requests: each(Operation::Register, previous),
            outcome: TransactionView {
                state: TransactionState::PreviousActive,
                message: "Could not register: "@ + error + "; previous shortcuts restored"@,
                known_active: previous,
                uncertain: Seq::empty(),
            },
        }
    } else {
        let released = previous.take(restored).reverse();
        let uncertain = unconfirmed(
            released,
            answers.skip(restored + 1).take(released.len() as int),
        );
        Transcript {
            requests: each(Operation::Register, previous.take(restored + 1)) + each(
                Operation::Unregister,
                released,
            ),
            outcome: nothing_known(
                "Could not register: "@ + error + "; rollback failed: "@
                    + answers[restored]->Err_0 + (if uncertain.len() == 0 {
                    "; cleanup confirmed none active"@
                } else {
                    "; shortcut state unknown/degraded"@
                }),
                uncertain,
            ),
        }
    }
}

/// The course of registering the new shortcuts, once all previous ones have
/// been released.
pub open spec fn registered(
    previous: Seq<HotKey>,
    next: Seq<HotKey>,
    answers: Seq<Result<(), Seq<char>>>,
) -> Transcript {
    let done = first_failure(next.len(), answers);
    if done == next.len() {
        Transcript {
            requests: each(Operation::Register, next),
            outcome: TransactionView {
                state: TransactionState::NewActive,
                message: "Shortcuts applied"@,
                known_active: next,
                uncertain: Seq::empty(),
            },
        }
    } else {
        let error = answers[done]->Err_0;
        let released = next.take(done).reverse();
        let uncertain = unconfirmed(released, answers.skip(done + 1).take(released.len() as int));
        let requests = each(Operation::Register, next.take(done + 1)) + each(
            Operation::Unregister,
            released,
        );
        if uncertain.len() > 0 {
            Transcript {
                requests,
                outcome: nothing_known(
                    "Could not register: "@ + error
                        + "; cleanup incomplete, shortcut state unknown/degraded"@,
                    uncertain,
                ),
            }
        } else if previous.len() == 0 {
            Transcript {
                requests,
                outcome: nothing_known(
                    "Could not register: "@ + error + "; cleanup confirmed none active"@,
                    uncertain,
                ),
            }
        } else {
            let rollback = rolled_back(
                previous,
                error,
                answers.skip(done + 1).skip(released.len() as int),
            );
            Transcript { requests: requests + rollback.requests, outcome: rollback.outcome }
        }
    }
}

/// The course of replacing `previous` by `next`, given what the system answers
/// to each request in turn.
pub open spec fn replacement(
    previous: Seq<HotKey>,
    next: Seq<HotKey>,
    answers: Seq<Result<(), Seq<char>>>,
) -> Transcript {
    let count = previous.len() as int;
    if failed(previous, answers.take(count)).len() > 0 {
        release_failed(previous, answers)
    } else {
        let rest = registered(previous, next, answers.skip(count));
        Transcript {
            requests: each(Operation::Unregister, previous) + rest.requests,
            outcome: rest.outcome,
        }
    }
}

proof fn lemma_first_failure_at(
    count: nat,
    answers: Seq<Result<(), Seq<char>>>,
    place: nat,
)
    requires
        place <= count,
        forall|i: int| 0 <= i < place ==> (#[trigger] answers[i]) is Ok,
        place < count ==> answers[place as int] is Err,
    ensures
        first_failure(count, answers) == place,
    decreases count,
{
    if count > 0 {
        if place == count {
            assert(answers[count - 1] is Ok);
            lemma_first_failure_at((count - 1) as nat, answers, (count - 1) as nat);
        } else {
            lemma_first_failure_at((count - 1) as nat, answers, place);
        }
    }
}

/// What one more call adds to what has been asked and answered since `before`.
proof fn lemma_one_more_call(before: Seq<Call>, earlier: Seq<Call>, call: Call)
    requires
        continues(before, earlier),
    ensures
        continues(before, earlier.push(call)),
        calls_since(before, earlier.push(call)) == calls_since(before, earlier).push(call),
        requests_of(calls_since(before, earlier.push(call))) == requests_of(
            calls_since(before, earlier),
        ).push(call.request),
        answers_of(calls_since(before, earlier.push(call))) == answers_of(
            calls_since(before, earlier),
        ).push(call.answer),
{
    let after = earlier.push(call);
    assert(after.take(before.len() as int) =~= earlier.take(before.len() as int));
    assert(calls_since(before, after) =~= calls_since(before, earlier).push(call));
    assert(requests_of(calls_since(before, after)) =~= requests_of(
        calls_since(before, earlier),
    ).push(call.request));
    assert(answers_of(calls_since(before, after)) =~= answers_of(
        calls_since(before, earlier),
    ).push(call.answer));
}

/// Nothing has been asked since the state that a history is in.
proof fn lemma_no_calls_yet(before: Seq<Call>)
    ensures
        continues(before, before),
        calls_since(before, before) == Seq::<Call>::empty(),
        requests_of(calls_since(before, before)) == Seq::<Request>::empty(),
        answers_of(calls_since(before, before)) == Seq::<Result<(), Seq<char>>>::empty(),
{
    assert(before.take(before.len() as int) =~= before);
    assert(calls_since(before, before) =~= Seq::<Call>::empty());
    assert(requests_of(calls_since(before, before)) =~= Seq::<Request>::empty());
    assert(answers_of(calls_since(before, before)) =~= Seq::<Result<(), Seq<char>>>::empty());
}

/// The same operation on one more shortcut.
proof fn lemma_each_take(operation: Operation, keys: Seq<HotKey>, count: int)
    requires
        0 <= count < keys.len(),
    ensures
        each(operation, keys.take(count + 1)) == each(operation, keys.take(count)).push(
            Request { operation, key: keys[count] },
        ),
        keys.take(count + 1).drop_last() == keys.take(count),
        keys.take(count + 1).last() == keys[count],
{
    assert(each(operation, keys.take(count + 1)) =~= each(operation, keys.take(count)).push(
        Request { operation, key: keys[count] },
    ));
    assert(keys.take(count + 1).drop_last() =~= keys.take(count));
}

/// Whether shortcuts with this identity are among `keys`.
pub(crate) fn lists_id(keys: &Vec<HotKey>, id: u32) -> (listed: bool)
    ensures
        listed == has_id(keys@, id),
{
    let mut i: usize = 0;
    while i < keys.len()
        invariant
            i <= keys@.len(),
            forall|j: int| 0 <= j < i ==> (#[trigger] keys@[j])@.id != id,
        decreases keys@.len() - i,
    {
        if keys[i].id() == id {
            assert(keys@[i as int]@.id == id);
            return true;
        }
        i = i + 1;
    }
    false
}

/// Asks the system to release each of the shortcuts, the last one first, and
/// names those that it would not release.
pub fn cleanup_shortcuts<B: ShortcutBackend>(backend: &mut B, keys: &[HotKey]) -> (uncertain: Vec<
    HotKey,
>)
    ensures
        continues(old(backend).asked(), final(backend).asked()),
        requests_of(calls_since(old(backend).asked(), final(backend).asked())) == each(
            Operation::Unregister,
            keys@.reverse(),
        ),
        uncertain@ == unconfirmed(
            keys@.reverse(),
            answers_of(calls_since(old(backend).asked(), final(backend).asked())),
        ),
{
    let ghost before = backend.asked();
    let ghost tried = keys@.reverse();
    let mut uncertain: Vec<HotKey> = Vec::new();
    let mut left: usize = keys.len();
    proof {
        lemma_no_calls_yet(before);
        assert(tried.take(0) =~= Seq::empty());
        assert(each(Operation::Unregister, tried.take(0)) =~= Seq::empty());
    }
    while left > 0
        invariant
            left <= keys@.len(),
            tried == keys@.reverse(),
            continues(before, backend.asked()),
            requests_of(calls_since(before, backend.asked())) == each(
                Operation::Unregister,
                tried.take(keys@.len() - left),
            ),
            uncertain@ == unconfirmed(
                tried.take(keys@.len() - left),
                answers_of(calls_since(before, backend.asked())),
            ),
        decreases left,
    {
        left = left - 1;
        let ghost done = keys@.len() - left;
        let ghost earlier = backend.asked();
        let key = &keys[left];
        let answer = backend.unregister(key);
        if answer.is_err() && !lists_id(&uncertain, key.id()) {
            uncertain.push(key.clone());
        }
        proof {
            let call = call_of(Operation::Unregister, *key, answer);
            lemma_one_more_call(before, earlier, call);
            lemma_each_take(Operation::Unregister, tried, done - 1);
            let answers = answers_of(calls_since(before, earlier));
            assert(answers.push(call.answer).drop_last() =~= answers);
        }
    }
    assert(tried.take(keys@.len() as int) =~= tried);
    uncertain
}

/// What has been asked and answered in two stretches one after the other.
proof fn lemma_stretches_join(first: Seq<Call>, second: Seq<Call>, third: Seq<Call>)
    requires
        continues(first, second),
        continues(second, third),
    ensures
        continues(first, third),
        requests_of(calls_since(first, third)) == requests_of(calls_since(first, second))
            + requests_of(calls_since(second, third)),
        answers_of(calls_since(first, third)) == answers_of(calls_since(first, second))
            + answers_of(calls_since(second, third)),
        answers_of(calls_since(first, second)).len() == requests_of(
            calls_since(first, second),
        ).len(),
        answers_of(calls_since(second, third)).len() == requests_of(
            calls_since(second, third),
        ).len(),
{
    assert forall|i: int| 0 <= i < second.len() implies third[i] == second[i] by {
        assert(third.take(second.len() as int)[i] == third[i]);
    }
    assert(third.take(first.len() as int) =~= second.take(first.len() as int));
    let whole = calls_since(first, third);
    assert(whole =~= calls_since(first, second) + calls_since(second, third));
    assert(requests_of(whole) =~= requests_of(calls_since(first, second)) + requests_of(
        calls_since(second, third),
    ));
    assert(answers_of(whole) =~= answers_of(calls_since(first, second)) + answers_of(
        calls_since(second, third),
    ));
}

/// Asks the system to release each of the shortcuts in turn. Names those that
/// it would not release, and the first reason that it gave.
pub(crate) fn release_all<B: ShortcutBackend>(backend: &mut B, keys: &[HotKey]) -> (failures: (
    Vec<HotKey>,
    Option<String>,
))
    ensures
        continues(old(backend).asked(), final(backend).asked()),
        requests_of(calls_since(old(backend).asked(), final(backend).asked())) == each(
            Operation::Unregister,
            keys@,
        ),
        ({
            let answers = answers_of(
                calls_since(old(backend).asked(), final(backend).asked()),
            );
            let place = first_failure(keys@.len(), answers);
            &&& failures.0@ == failed(keys@, answers)
            &&& failures.1 is Some <==> failures.0@.len() > 0
            &&& failures.1 matches Some(error) ==> 0 <= place < keys@.len() && answers[place]
                == Err::<(), Seq<char>>(error@)
        }),
{
    let ghost before = backend.asked();
    let mut refused: Vec<HotKey> = Vec::new();
    let mut reason: Option<String> = None;
    let ghost mut place: nat = 0;
    proof {
        lemma_no_calls_yet(before);
        assert(keys@.take(0) =~= Seq::empty());
        assert(each(Operation::Unregister, keys@.take(0)) =~= Seq::empty());
    }
    let mut i: usize = 0;
    while i < keys.len()
        invariant
            i <= keys@.len(),
            continues(before, backend.asked()),
            requests_of(calls_since(before, backend.asked())) == each(
                Operation::Unregister,
                keys@.take(i as int),
            ),
            refused@ == failed(
                keys@.take(i as int),
                answers_of(calls_since(before, backend.asked())),
            ),
            answers_of(calls_since(before, backend.asked())).len() == i,
            reason is Some <==> refused@.len() > 0,
            reason is None ==> place == i,
            reason matches Some(error) ==> place < i && answers_of(
                calls_since(before, backend.asked()),
            )[place as int] == Err::<(), Seq<char>>(error@),
            forall|j: int|
                0 <= j < place ==> (#[trigger] answers_of(
                    calls_since(before, backend.asked()),
                )[j]) is Ok,
        decreases keys@.len() - i,
    {
        let ghost earlier = backend.asked();
        let key = &keys[i];
        let answer = backend.unregister(key);
        proof {
            let call = call_of(Operation::Unregister, *key, answer);
            lemma_one_more_call(before, earlier, call);
            lemma_each_take(Operation::Unregister, keys@, i as int);
            let answers = answers_of(calls_since(before, earlier));
            assert(answers.push(call.answer).drop_last() =~= answers);
        }
        match answer {
            Ok(_) => {
                proof {
                    if reason is None {
                        place = place + 1;
                    }
                }
            },
            Err(error) => {
                if reason.is_none() {
                    reason = Some(error);
                }
                refused.push(key.clone());
            },
        }
        i = i + 1;
    }
    proof {
        assert(keys@.take(keys@.len() as int) =~= keys@);
        lemma_first_failure_at(
            keys@.len(),
            answers_of(calls_since(before, backend.asked())),
            place,
        );
    }
    (refused, reason)
}

/// Asks the system to register each of the shortcuts in turn, up to the first
/// that it refuses. Names those that are registered, and the reason for the
/// refusal.
fn register_in_order<B: ShortcutBackend>(backend: &mut B, keys: &[HotKey]) -> (done: (
    Vec<HotKey>,
    Option<String>,
))
    ensures
        continues(old(backend).asked(), final(backend).asked()),
        ({
            let calls = calls_since(old(backend).asked(), final(backend).asked());
            let answers = answers_of(calls);
            let count = done.0@.len() as int;
            &&& count <= keys@.len()
            &&& done.0@ == keys@.take(count)
            &&& forall|i: int| 0 <= i < count ==> (#[trigger] answers[i]) is Ok
            &&& done.1 is None ==> count == keys@.len() && answers.len() == count && requests_of(
                calls,
            ) == each(Operation::Register, keys@)
            &&& done.1 matches Some(error) ==> count < keys@.len() && answers.len() == count + 1
                && answers[count] == Err::<(), Seq<char>>(error@) && requests_of(calls) == each(
                Operation::Register,
                keys@.take(count + 1),
            )
        }),
{
    let ghost before = backend.asked();
    let mut registered: Vec<HotKey> = Vec::new();
    proof {
        lemma_no_calls_yet(before);
        assert(keys@.take(0) =~= Seq::empty());
        assert(each(Operation::Register, keys@.take(0)) =~= Seq::empty());
    }
    let mut i: usize = 0;
    while i < keys.len()
        invariant
            i <= keys@.len(),
            before == old(backend).asked(),
            continues(before, backend.asked()),
            requests_of(calls_since(before, backend.asked())) == each(
                Operation::Register,
                keys@.take(i as int),
            ),
            registered@ == keys@.take(i as int),
            answers_of(calls_since(before, backend.asked())).len() == i,
            forall|j: int|
                0 <= j < i ==> (#[trigger] answers_of(
                    calls_since(before, backend.asked()),
                )[j]) is Ok,
        decreases keys@.len() - i,
    {
        let ghost earlier = backend.asked();
        let key = &keys[i];
        let answer = backend.register(key);
        proof {
            let call = call_of(Operation::Register, *key, answer);
            lemma_one_more_call(before, earlier, call);
            lemma_each_take(Operation::Register, keys@, i as int);
        }
        if let Err(error) = answer {
            return (registered, Some(error));
        }
        registered.push(key.clone());
        assert(registered@ =~= keys@.take(i + 1));
        i = i + 1;
    }
    assert(keys@.take(keys@.len() as int) =~= keys@);
    (registered, None)
}

/// Whether a stretch of history is the course of a transcript.
pub open spec fn took_course(
    before: Seq<Call>,
    after: Seq<Call>,
    course: Transcript,
    outcome: TransactionView,
) -> bool {
    &&& continues(before, after)
    &&& requests_of(calls_since(before, after)) == course.requests
    &&& outcome == course.outcome
}

fn message_of(first: &str, detail: &str, last: &str) -> (message: String)
    ensures
        message@ == first@ + detail@ + last@,
{
    let mut message = first.to_owned();
    message.append(detail);
    message.append(last);
    message
}

/// Registers the previous shortcuts again after `error`.
fn roll_back<B: ShortcutBackend>(backend: &mut B, previous: &[HotKey], error: &str) -> (result:
    ShortcutTransaction)
    ensures
        took_course(
            old(backend).asked(),
            final(backend).asked(),
            rolled_back(
                previous@,
                error@,
                answers_of(calls_since(old(backend).asked(), final(backend).asked())),
            ),
            result@,
        ),
{
    let ghost h0 = backend.asked();
    let (restored, refusal) = register_in_order(backend, previous);
    let ghost h1 = backend.asked();
    let ghost count = restored@.len();
    match refusal {
        None => {
            proof {
                lemma_first_failure_at(previous@.len(), answers_of(calls_since(h0, h1)), count);
                assert(restored@ =~= previous@);
            }
            ShortcutTransaction {
                state: TransactionState::PreviousActive,
                message: message_of(
                    "Could not register: ",
                    error,
                    "; previous shortcuts restored",
                ),
                known_active: restored,
                uncertain: Vec::new(),
            }
        },
        Some(rollback_error) => {
            let uncertain = cleanup_shortcuts(backend, restored.as_slice());
            let ghost h2 = backend.asked();
            proof {
                lemma_stretches_join(h0, h1, h2);
                let first = answers_of(calls_since(h0, h1));
                let second = answers_of(calls_since(h1, h2));
                let whole = answers_of(calls_since(h0, h2));
                assert(whole[count as int] == first[count as int]);
                assert forall|i: int| 0 <= i < count implies (#[trigger] whole[i]) is Ok by {
                    assert(whole[i] == first[i]);
                }
                lemma_first_failure_at(previous@.len(), whole, count);
                assert(each(Operation::Unregister, restored@.reverse()).len() == count);
                assert(whole.skip(count as int + 1).take(count as int) =~= second);
            }
            let mut message = message_of("Could not register: ", error, "; rollback failed: ");
            message.append(rollback_error.as_str());
            if uncertain.is_empty() {
                message.append("; cleanup confirmed none active");
                ShortcutTransaction {
                    state: TransactionState::Inactive,
                    message,
                    known_active: Vec::new(),
                    uncertain,
                }
            } else {
                message.append("; shortcut state unknown/degraded");
                ShortcutTransaction {
                    state: TransactionState::Unknown,
                    message,
                    known_active: Vec::new(),
                    uncertain,
                }
            }
        },
    }
}

/// Registers the new shortcuts, the previous ones having been released.
fn register_next<B: ShortcutBackend>(backend: &mut B, previous: &[HotKey], next: &[HotKey]) -> (result:
    ShortcutTransaction)
    ensures
        took_course(
            old(backend).asked(),
            final(backend).asked(),
            registered(
                previous@,
                next@,
                answers_of(calls_since(old(backend).asked(), final(backend).asked())),
            ),
            result@,
        ),
{
    let ghost h0 = backend.asked();
    let (done, refusal) = register_in_order(backend, next);
    let ghost h1 = backend.asked();
    let ghost count = done@.len();
    let error = match refusal {
        None => {
            proof {
                lemma_first_failure_at(next@.len(), answers_of(calls_since(h0, h1)), count);
                assert(done@ =~= next@);
            }
            return ShortcutTransaction {
                state: TransactionState::NewActive,
                message: "Shortcuts applied".to_owned(),
                known_active: done,
                uncertain: Vec::new(),
            };
        },
        Some(error) => error,
    };
    // A refused registration does not show that this process owns the
    // shortcut: it may belong to another application, so it is never released.
    // Only what was registered here is.
    let uncertain = cleanup_shortcuts(backend, done.as_slice());
    let ghost h2 = backend.asked();
    proof {
        lemma_stretches_join(h0, h1, h2);
        let first = answers_of(calls_since(h0, h1));
        let second = answers_of(calls_since(h1, h2));
        let whole = answers_of(calls_since(h0, h2));
        assert(whole[count as int] == first[count as int]);
        assert forall|i: int| 0 <= i < count implies (#[trigger] whole[i]) is Ok by {
            assert(whole[i] == first[i]);
        }
        lemma_first_failure_at(next@.len(), whole, count);
        assert(each(Operation::Unregister, done@.reverse()).len() == count);
        assert(whole.skip(count as int + 1).take(count as int) =~= second);
    }
    if !uncertain.is_empty() {
        return ShortcutTransaction {
            state: TransactionState::Unknown,
            message: message_of(
                "Could not register: ",
                error.as_str(),
                "; cleanup incomplete, shortcut state unknown/degraded",
            ),
            known_active: Vec::new(),
            uncertain,
        };
    }
    if previous.len() == 0 {
        return ShortcutTransaction {
            state: TransactionState::Inactive,
            message: message_of(
                "Could not register: ",
                error.as_str(),
                "; cleanup confirmed none active",
            ),
            known_active: Vec::new(),
            uncertain,
        };
    }
    let result = roll_back(backend, previous, error.as_str());
    proof {
        let h3 = backend.asked();
        lemma_stretches_join(h0, h2, h3);
        lemma_stretches_join(h0, h1, h2);
        let first = answers_of(calls_since(h0, h1));
        let second = answers_of(calls_since(h1, h2));
        let third = answers_of(calls_since(h2, h3));
        let whole = answers_of(calls_since(h0, h3));
        assert(whole =~= first + second + third);
        assert(whole[count as int] == first[count as int]);
        assert forall|i: int| 0 <= i < count implies (#[trigger] whole[i]) is Ok by {
            assert(whole[i] == first[i]);
        }
        lemma_first_failure_at(next@.len(), whole, count);
        assert(whole.skip(count as int + 1).take(count as int) =~= second);
        assert(whole.skip(count as int + 1).skip(count as int) =~= third);
    }
    result
}

/// Replaces the previous shortcuts by the next ones. Where a new shortcut is
/// refused, those registered so far are released and the previous ones are
/// registered again. The outcome says which shortcuts are registered then, and
/// which may still be.
pub fn replace_shortcut_set<B: ShortcutBackend>(
    backend: &mut B,
    previous: &[HotKey],
    next: &[HotKey; 4],
) -> (result: ShortcutTransaction)
    ensures
        took_course(
            old(backend).asked(),
            final(backend).asked(),
            replacement(
                previous@,
                next@,
                answers_of(calls_since(old(backend).asked(), final(backend).asked())),
            ),
            result@,
        ),
{
    let ghost h0 = backend.asked();
    let (refused, reason) = release_all(backend, previous);
    let ghost h1 = backend.asked();
    let ghost count = previous@.len();
    assert(each(Operation::Unregister, previous@).len() == count);
    assert(answers_of(calls_since(h0, h1)).len() == requests_of(calls_since(h0, h1)).len());
    if let Some(detail) = reason {
        let uncertain = cleanup_shortcuts(backend, refused.as_slice());
        proof {
            let h2 = backend.asked();
            lemma_stretches_join(h0, h1, h2);
            let first = answers_of(calls_since(h0, h1));
            let second = answers_of(calls_since(h1, h2));
            let whole = answers_of(calls_since(h0, h2));
            let place = first_failure(count, first);
            lemma_first_failure_prefix(count, first, whole);
            assert(whole[place] == first[place]);
            assert(whole.take(count as int) =~= first);
            assert(each(Operation::Unregister, refused@.reverse()).len() == refused@.len());
            assert(whole.skip(count as int).take(refused@.len() as int) =~= second);
        }
        if uncertain.is_empty() {
            return ShortcutTransaction {
                state: TransactionState::Inactive,
                message: message_of(
                    "Could not release shortcuts: ",
                    detail.as_str(),
                    "; cleanup confirmed none active",
                ),
                known_active: Vec::new(),
                uncertain,
            };
        }
        return ShortcutTransaction {
            state: TransactionState::Unknown,
            message: message_of(
                "Could not release shortcuts: ",
                detail.as_str(),
                "; shortcut state unknown/degraded",
            ),
            known_active: Vec::new(),
            uncertain,
        };
    }
    let result = register_next(backend, previous, next.as_slice());
    proof {
        let h2 = backend.asked();
        lemma_stretches_join(h0, h1, h2);
        let first = answers_of(calls_since(h0, h1));
        let second = answers_of(calls_since(h1, h2));
        let whole = answers_of(calls_since(h0, h2));
        assert(whole.take(count as int) =~= first);
        assert(whole.skip(count as int) =~= second);
    }
    result
}

proof fn lemma_first_failure_prefix(
    count: nat,
    short: Seq<Result<(), Seq<char>>>,
    long: Seq<Result<(), Seq<char>>>,
)
    requires
        count <= short.len() <= long.len(),
        forall|i: int| 0 <= i < short.len() ==> short[i] == #[trigger] long[i],
    ensures
        first_failure(count, short) == first_failure(count, long),
    decreases count,
{
    if count > 0 {
        lemma_first_failure_prefix((count - 1) as nat, short, long);
        assert(short[count - 1] == long[count - 1]);
    }
}

/// The shortcuts at the start of the program.
pub struct ShortcutStartupState {
    pub active: Option<[HotKey; 4]>,
    pub known_active: Vec<HotKey>,
    pub uncertain: Vec<HotKey>,
    pub state: TransactionState,
    pub message: String,
}

impl ShortcutStartupState {
    /// The outcome that the startup state reports.
    pub open spec fn outcome(self) -> TransactionView {
        TransactionView {
            state: self.state,
            message: self.message@,
            known_active: self.known_active@,
            uncertain: self.uncertain@,
        }
    }
}

/// Registers the shortcuts that the program starts with. They are active where
/// all four were registered.
pub fn initialize_shortcuts<B: ShortcutBackend>(backend: &mut B, defaults: &[HotKey; 4]) -> (startup:
    ShortcutStartupState)
    ensures
        took_course(
            old(backend).asked(),
            final(backend).asked(),
            replacement(
                Seq::empty(),
                defaults@,
                answers_of(calls_since(old(backend).asked(), final(backend).asked())),
            ),
            startup.outcome(),
        ),
        startup.active == (if startup.state == TransactionState::NewActive {
            Some(*defaults)
        } else {
            None
        }),
{
    let none: Vec<HotKey> = Vec::new();
    let result = replace_shortcut_set(backend, none.as_slice(), defaults);
    assert(none@ =~= Seq::empty());
    let active = match result.state {
        TransactionState::NewActive => Some(copy_keys(defaults)),
        _ => None,
    };
    ShortcutStartupState {
        active,
        known_active: result.known_active,
        uncertain: result.uncertain,
        state: result.state,
        message: result.message,
    }
}

} // verus!
