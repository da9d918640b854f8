//! When which shortcuts are registered after a replacement.

use crate::hotkey::HotKey;
use crate::transaction::{Operation, Request, TransactionState};
use vstd::prelude::*;

verus! {

/// Whether the answers from `start` up to `end` all accept.
pub open spec fn accepted_from(
    answers: Seq<Result<(), Seq<char>>>,
    start: int,
    end: int,
) -> bool {
    forall|i: int| start <= i < end ==> (#[trigger] answers[i]) is Ok
}

/// Requests to release shortcuts in this order.
pub open spec fn releases(keys: Seq<HotKey>) -> Seq<Request> {
    Seq::new(
        keys.len(),
        |i: int| Request { operation: Operation::Unregister, key: keys[i] },
    )
}

/// Requests to register shortcuts in this order.
pub open spec fn registrations(keys: Seq<HotKey>) -> Seq<Request> {
    Seq::new(keys.len(), |i: int| Request { operation: Operation::Register, key: keys[i] })
}

/// The shortcuts, the last one first.
pub open spec fn backwards(keys: Seq<HotKey>) -> Seq<HotKey> {
    Seq::new(keys.len(), |i: int| keys[keys.len() - 1 - i])
}

proof fn lemma_words(keys: Seq<HotKey>)
    ensures
        crate::transaction::each(Operation::Unregister, keys) == releases(keys),
        crate::transaction::each(Operation::Register, keys) == registrations(keys),
        keys.reverse() == backwards(keys),
{
    assert(crate::transaction::each(Operation::Unregister, keys) =~= releases(keys));
    assert(crate::transaction::each(Operation::Register, keys) =~= registrations(keys));
    assert(keys.reverse() =~= backwards(keys));
}

/// What is common to every replacement in which all previous shortcuts are
/// released and the registration of the new one at `refused` is the first to be
/// refused.
proof fn lemma_refused_at(
    previous: Seq<HotKey>,
    next: Seq<HotKey>,
    answers: Seq<Result<(), Seq<char>>>,
    refused: int,
)
    requires
        0 <= refused < next.len(),
        answers.len() >= previous.len() + refused + 1 + refused,
        accepted_from(answers, 0, previous.len() + refused),
        answers[previous.len() + refused] is Err,
    ensures
        crate::transaction::failed(previous, answers.take(previous.len() as int)).len() == 0,
        crate::transaction::first_failure(next.len(), answers.skip(previous.len() as int))
            == refused,
{
    let count = previous.len() as int;
    let first = answers.take(count);
    assert forall|i: int| 0 <= i < first.len() implies (#[trigger] first[i]) is Ok by {
        assert(first[i] == answers[i]);
    }
    crate::ownership::lemma_nothing_failed(previous, first);
    let rest = answers.skip(count);
    crate::ownership::lemma_first_failure(next.len(), rest);
    let place = crate::transaction::first_failure(next.len(), rest);
    assert(rest[refused] == answers[count + refused]);
    if place < refused {
        assert(rest[place] == answers[count + place]);
    }
    if place > refused {
        assert(rest[refused] is Ok);
    }
}

/// The previous shortcuts come back. Where they are all released, a new shortcut
/// is refused, whichever of them it is, and the system accepts everything after
/// that, the new ones registered so far are released again, the last one first,
/// and then each of the previous ones is registered again, in order.
pub proof fn law_previous_shortcuts_come_back(
    previous: Seq<HotKey>,
    next: Seq<HotKey>,
    answers: Seq<Result<(), Seq<char>>>,
    refused: int,
)
    requires
        previous.len() > 0,
        0 <= refused < next.len(),
        answers.len() == previous.len() + refused + 1 + refused + previous.len(),
        accepted_from(answers, 0, previous.len() + refused),
        answers[previous.len() + refused] is Err,
        accepted_from(answers, previous.len() + refused + 1, answers.len() as int),
    ensures
        ({
            let course = crate::transaction::replacement(previous, next, answers);
            &&& course.outcome.state == TransactionState::PreviousActive
            &&& course.outcome.known_active == previous
            &&& course.outcome.uncertain == Seq::<HotKey>::empty()
            &&& course.outcome.message == "Could not register: "@ + answers[previous.len()
                + refused]->Err_0 + "; previous shortcuts restored"@
            &&& course.requests == releases(previous) + registrations(next.take(refused + 1))
                + releases(backwards(next.take(refused))) + registrations(previous)
        }),
{
    let count = previous.len() as int;
    let course = crate::transaction::replacement(previous, next, answers);
    lemma_refused_at(previous, next, answers, refused);
    let rest = answers.skip(count);
    let released = next.take(refused).reverse();
    let cleanup = rest.skip(refused + 1).take(refused);
    assert forall|i: int| 0 <= i < cleanup.len() implies (#[trigger] cleanup[i]) is Ok by {
        assert(cleanup[i] == answers[count + refused + 1 + i]);
    }
    crate::ownership::law_cleanup_names_each_refusal_once(released, cleanup, 0);
    let after = rest.skip(refused + 1).skip(refused);
    crate::ownership::lemma_first_failure(previous.len(), after);
    let restored = crate::transaction::first_failure(previous.len(), after);
    if restored < count {
        assert(after[restored] == answers[count + refused + 1 + refused + restored]);
    }
    lemma_words(previous);
    lemma_words(next.take(refused + 1));
    lemma_words(next.take(refused));
    lemma_words(released);
    assert(rest[refused] == answers[count + refused]);
    assert(course.requests =~= releases(previous) + registrations(next.take(refused + 1))
        + releases(backwards(next.take(refused))) + registrations(previous));
}

/// Where there were no shortcuts before, and a new one is refused, whichever of
/// them it is, nothing is registered once the ones before it have been released
/// again, and nothing more is asked.
pub proof fn law_first_shortcuts_are_taken_back(
    next: Seq<HotKey>,
    answers: Seq<Result<(), Seq<char>>>,
    refused: int,
)
    requires
        0 <= refused < next.len(),
        answers.len() == refused + 1 + refused,
        accepted_from(answers, 0, refused),
        answers[refused] is Err,
        accepted_from(answers, refused + 1, answers.len() as int),
    ensures
        ({
            let course = crate::transaction::replacement(Seq::empty(), next, answers);
            &&& course.outcome.state == TransactionState::Inactive
            &&& course.outcome.known_active == Seq::<HotKey>::empty()
            &&& course.outcome.uncertain == Seq::<HotKey>::empty()
            &&& course.outcome.message == "Could not register: "@ + answers[refused]->Err_0
                + "; cleanup confirmed none active"@
            &&& course.requests == registrations(next.take(refused + 1)) + releases(
                backwards(next.take(refused)),
            )
        }),
{
    let none = Seq::<HotKey>::empty();
    let course = crate::transaction::replacement(none, next, answers);
    lemma_refused_at(none, next, answers, refused);
    let rest = answers.skip(0);
    assert(rest =~= answers);
    let released = next.take(refused).reverse();
    let cleanup = rest.skip(refused + 1).take(refused);
    assert forall|i: int| 0 <= i < cleanup.len() implies (#[trigger] cleanup[i]) is Ok by {
        assert(cleanup[i] == answers[refused + 1 + i]);
    }
    crate::ownership::law_cleanup_names_each_refusal_once(released, cleanup, 0);
    lemma_words(none);
    lemma_words(next.take(refused + 1));
    lemma_words(next.take(refused));
    lemma_words(released);
    assert(course.outcome.uncertain =~= none);
    assert(course.requests =~= registrations(next.take(refused + 1)) + releases(
        backwards(next.take(refused)),
    ));
}

/// Where a new shortcut is refused and the release of one registered before it
/// is refused as well, the state is unknown. Every identity whose release was
/// refused is named, no other is, and nothing more is asked.
pub proof fn law_unconfirmed_cleanup_is_unknown(
    previous: Seq<HotKey>,
    next: Seq<HotKey>,
    answers: Seq<Result<(), Seq<char>>>,
    refused: int,
    kept: int,
)
    requires
        0 <= refused < next.len(),
        answers.len() == previous.len() + refused + 1 + refused,
        accepted_from(answers, 0, previous.len() + refused),
        answers[previous.len() + refused] is Err,
        0 <= kept < refused,
        answers[previous.len() + refused + 1 + kept] is Err,
    ensures
        ({
            let course = crate::transaction::replacement(previous, next, answers);
            let cleanup = previous.len() + refused + 1;
            &&& course.outcome.state == TransactionState::Unknown
            &&& course.outcome.known_active == Seq::<HotKey>::empty()
            &&& course.outcome.uncertain == crate::transaction::unconfirmed(
                backwards(next.take(refused)),
                answers.skip(cleanup),
            )
            &&& forall|id: u32|
                crate::transaction::has_id(course.outcome.uncertain, id) <==> exists|i: int|
                    0 <= i < refused && (#[trigger] backwards(next.take(refused))[i])@.id == id
                        && answers[cleanup + i] is Err
            &&& course.outcome.message == "Could not register: "@ + answers[previous.len()
                + refused]->Err_0 + "; cleanup incomplete, shortcut state unknown/degraded"@
            &&& course.requests == releases(previous) + registrations(next.take(refused + 1))
                + releases(backwards(next.take(refused)))
        }),
{
    let count = previous.len() as int;
    let course = crate::transaction::replacement(previous, next, answers);
    lemma_refused_at(previous, next, answers, refused);
    let rest = answers.skip(count);
    let released = next.take(refused).reverse();
    let cleanup = rest.skip(refused + 1).take(refused);
    assert forall|i: int| 0 <= i < refused implies #[trigger] cleanup[i] == answers[count + refused
        + 1 + i] by {}
    assert(cleanup =~= answers.skip(count + refused + 1));
    assert(cleanup[kept] is Err);
    lemma_words(previous);
    lemma_words(next.take(refused + 1));
    lemma_words(next.take(refused));
    lemma_words(released);
    crate::ownership::law_cleanup_names_each_refusal_once(released, cleanup, 0);
    assert(rest[refused] == answers[count + refused]);
    assert forall|id: u32|
        crate::transaction::has_id(course.outcome.uncertain, id) <==> exists|i: int|
            0 <= i < refused && (#[trigger] backwards(next.take(refused))[i])@.id == id
                && answers[count + refused + 1 + i] is Err by {
        crate::ownership::law_cleanup_names_each_refusal_once(released, cleanup, id);
        assert forall|i: int|
            0 <= i < refused && (#[trigger] backwards(next.take(refused))[i])@.id == id
                && answers[count + refused + 1 + i] is Err implies crate::transaction::has_id(
            course.outcome.uncertain,
            id,
        ) by {
            assert(released[i]@.id == id && cleanup[i] is Err);
        }
        if crate::transaction::has_id(course.outcome.uncertain, id) {
            let i = choose|i: int|
                0 <= i < released.len() && (#[trigger] released[i])@.id == id && cleanup[i] is Err;
            assert(backwards(next.take(refused))[i]@.id == id);
        }
    }
    assert(course.requests =~= releases(previous) + registrations(next.take(refused + 1))
        + releases(backwards(next.take(refused))));
}

/// Where a new shortcut is refused and then one of the previous ones is refused
/// as well when it is to come back, those that came back before it are released
/// again, the last one first. Nothing is registered then where that is
/// confirmed, and otherwise the state is unknown. The message names both
/// refusals.
pub proof fn law_refused_rollback_is_undone(
    previous: Seq<HotKey>,
    next: Seq<HotKey>,
    answers: Seq<Result<(), Seq<char>>>,
    refused: int,
    lost: int,
)
    requires
        0 <= refused < next.len(),
        0 <= lost < previous.len(),
        answers.len() == previous.len() + refused + 1 + refused + lost + 1 + lost,
        accepted_from(answers, 0, previous.len() + refused),
        answers[previous.len() + refused] is Err,
        accepted_from(
            answers,
            previous.len() + refused + 1,
            previous.len() + refused + 1 + refused + lost,
        ),
        answers[previous.len() + refused + 1 + refused + lost] is Err,
    ensures
        ({
            let course = crate::transaction::replacement(previous, next, answers);
            let first = answers[previous.len() + refused]->Err_0;
            let second = answers[previous.len() + refused + 1 + refused + lost]->Err_0;
            let confirmed = accepted_from(
                answers,
                previous.len() + refused + 1 + refused + lost + 1,
                answers.len() as int,
            );
            &&& course.outcome.state == (if confirmed {
                TransactionState::Inactive
            } else {
                TransactionState::Unknown
            })
            &&& course.outcome.known_active == Seq::<HotKey>::empty()
            &&& confirmed <==> course.outcome.uncertain.len() == 0
            &&& course.outcome.uncertain == crate::transaction::unconfirmed(
                backwards(previous.take(lost)),
                answers.skip(previous.len() + refused + 1 + refused + lost + 1),
            )
            &&& course.outcome.message == "Could not register: "@ + first
                + "; rollback failed: "@ + second + (if confirmed {
                "; cleanup confirmed none active"@
            } else {
                "; shortcut state unknown/degraded"@
            })
            &&& course.requests == releases(previous) + registrations(next.take(refused + 1))
                + releases(backwards(next.take(refused))) + registrations(previous.take(lost + 1))
                + releases(backwards(previous.take(lost)))
        }),
{
    let count = previous.len() as int;
    let course = crate::transaction::replacement(previous, next, answers);
    lemma_refused_at(previous, next, answers, refused);
    let rest = answers.skip(count);
    let released = next.take(refused).reverse();
    let cleanup = rest.skip(refused + 1).take(refused);
    assert forall|i: int| 0 <= i < cleanup.len() implies (#[trigger] cleanup[i]) is Ok by {
        assert(cleanup[i] == answers[count + refused + 1 + i]);
    }
    crate::ownership::law_cleanup_names_each_refusal_once(released, cleanup, 0);
    let start = count + refused + 1 + refused;
    let after = rest.skip(refused + 1).skip(refused);
    assert forall|i: int| 0 <= i < after.len() implies #[trigger] after[i] == answers[start + i] by {}
    crate::ownership::lemma_first_failure(previous.len(), after);
    let restored = crate::transaction::first_failure(previous.len(), after);
    if restored < lost {
        assert(after[restored] == answers[start + restored]);
    }
    if restored > lost {
        assert(after[lost] is Ok);
    }
    let back = previous.take(lost).reverse();
    let undone = after.skip(lost + 1).take(lost);
    assert forall|i: int| 0 <= i < lost implies #[trigger] undone[i] == answers[start + lost + 1
        + i] by {}
    assert(undone =~= answers.skip(start + lost + 1));
    crate::ownership::law_cleanup_names_each_refusal_once(back, undone, 0);
    if course.outcome.uncertain.len() == 0 {
        assert forall|i: int| start + lost + 1 <= i < answers.len() implies (
        #[trigger] answers[i]) is Ok by {
            assert(undone[i - (start + lost + 1)] is Ok);
        }
    }
    lemma_words(previous);
    lemma_words(next.take(refused + 1));
    lemma_words(next.take(refused));
    lemma_words(released);
    lemma_words(previous.take(lost + 1));
    lemma_words(previous.take(lost));
    lemma_words(back);
    assert(rest[refused] == answers[count + refused]);
    assert(course.requests =~= releases(previous) + registrations(next.take(refused + 1))
        + releases(backwards(next.take(refused))) + registrations(previous.take(lost + 1))
        + releases(backwards(previous.take(lost))));
}

/// The shortcuts whose operation failed are listed in order: one more shortcut
/// adds itself at the end where its own operation failed, and nothing otherwise.
pub proof fn law_failures_are_listed_in_order(
    keys: Seq<HotKey>,
    answers: Seq<Result<(), Seq<char>>>,
    key: HotKey,
    answer: Result<(), Seq<char>>,
)
    requires
        keys.len() == answers.len(),
    ensures
        crate::transaction::failed(Seq::empty(), Seq::empty()) == Seq::<HotKey>::empty(),
        crate::transaction::failed(keys.push(key), answers.push(answer)) == (if answer is Err {
            crate::transaction::failed(keys, answers).push(key)
        } else {
            crate::transaction::failed(keys, answers)
        }),
{
    assert(keys.push(key).drop_last() =~= keys);
    assert(answers.push(answer).drop_last() =~= answers);
}

/// The shortcuts whose release is unconfirmed are listed in order, one of each
/// identity: one more shortcut adds itself at the end where its own release
/// failed and none of its identity is listed, and nothing otherwise.
pub proof fn law_unconfirmed_releases_are_listed_in_order(
    keys: Seq<HotKey>,
    answers: Seq<Result<(), Seq<char>>>,
    key: HotKey,
    answer: Result<(), Seq<char>>,
)
    requires
        keys.len() == answers.len(),
    ensures
        crate::transaction::unconfirmed(Seq::empty(), Seq::empty()) == Seq::<HotKey>::empty(),
        ({
            let listed = crate::transaction::unconfirmed(keys, answers);
            let known = exists|i: int|
                0 <= i < listed.len() && (#[trigger] listed[i])@.id == key@.id;
            crate::transaction::unconfirmed(keys.push(key), answers.push(answer)) == (
            if answer is Err && !known {
                listed.push(key)
            } else {
                listed
            })
        }),
{
    assert(keys.push(key).drop_last() =~= keys);
    assert(answers.push(answer).drop_last() =~= answers);
}

/// Where everything is accepted, each previous shortcut is released and each new
/// one registered, in order; the new ones, and no others, are then known to be
/// registered.
pub proof fn law_accepted_shortcuts_are_applied(
    previous: Seq<HotKey>,
    next: Seq<HotKey>,
    answers: Seq<Result<(), Seq<char>>>,
)
    requires
        answers.len() == previous.len() + next.len(),
        accepted_from(answers, 0, answers.len() as int),
    ensures
        ({
            let course = crate::transaction::replacement(previous, next, answers);
            &&& course.outcome.state == TransactionState::NewActive
            &&& course.outcome.known_active == next
            &&& course.outcome.uncertain == Seq::<HotKey>::empty()
            &&& course.outcome.message == "Shortcuts applied"@
            &&& course.requests == releases(previous) + registrations(next)
        }),
{
    let count = previous.len() as int;
    let first = answers.take(count);
    assert forall|i: int| 0 <= i < first.len() implies (#[trigger] first[i]) is Ok by {
        assert(first[i] == answers[i]);
    }
    crate::ownership::lemma_nothing_failed(previous, first);
    let rest = answers.skip(count);
    crate::ownership::lemma_first_failure(next.len(), rest);
    let done = crate::transaction::first_failure(next.len(), rest);
    if done < next.len() {
        assert(rest[done] == answers[count + done]);
    }
    lemma_words(previous);
    lemma_words(next);
}

/// Replacing begins with releasing every previous shortcut, in order, whatever
/// the system answers.
pub proof fn law_previous_shortcuts_are_released_first(
    previous: Seq<HotKey>,
    next: Seq<HotKey>,
    answers: Seq<Result<(), Seq<char>>>,
)
    ensures
        crate::transaction::replacement(previous, next, answers).requests.len() >= previous.len(),
        crate::transaction::replacement(previous, next, answers).requests.take(
            previous.len() as int,
        ) == releases(previous),
{
    let course = crate::transaction::replacement(previous, next, answers);
    lemma_words(previous);
    assert(course.requests.take(previous.len() as int) =~= releases(previous));
}

/// Where the release of a previous shortcut is refused, nothing is registered.
/// Every previous shortcut has been asked for, and those that were refused are
/// asked for once more, the last one first. Nothing is registered then where
/// that is confirmed, and otherwise the state is unknown. The message names the
/// first refusal.
pub proof fn law_refused_release_is_tried_again(
    previous: Seq<HotKey>,
    next: Seq<HotKey>,
    answers: Seq<Result<(), Seq<char>>>,
    refused: int,
)
    requires
        0 <= refused < previous.len(),
        accepted_from(answers, 0, refused),
        answers[refused] is Err,
        crate::transaction::replacement(previous, next, answers).requests.len() == answers.len(),
    ensures
        ({
            let course = crate::transaction::replacement(previous, next, answers);
            let again = crate::transaction::failed(
                previous,
                answers.take(previous.len() as int),
            );
            let confirmed = accepted_from(answers, previous.len() as int, answers.len() as int);
            &&& again.len() > 0 && again[0] == previous[refused]
            &&& course.requests == releases(previous) + releases(backwards(again))
            &&& course.outcome.state == (if confirmed {
                TransactionState::Inactive
            } else {
                TransactionState::Unknown
            })
            &&& course.outcome.known_active == Seq::<HotKey>::empty()
            &&& confirmed <==> course.outcome.uncertain.len() == 0
            &&& course.outcome.uncertain == crate::transaction::unconfirmed(
                backwards(again),
                answers.skip(previous.len() as int),
            )
            &&& course.outcome.message == "Could not release shortcuts: "@
                + answers[refused]->Err_0 + (if confirmed {
                "; cleanup confirmed none active"@
            } else {
                "; shortcut state unknown/degraded"@
            })
        }),
{
    let count = previous.len() as int;
    let course = crate::transaction::replacement(previous, next, answers);
    if answers.len() < count {
        lemma_at_least_released(previous, next, answers);
    }
    let first = answers.take(count);
    assert(first[refused] == answers[refused]);
    assert forall|i: int| 0 <= i < refused implies (#[trigger] first[i]) is Ok by {
        assert(first[i] == answers[i]);
    }
    lemma_first_failed(previous, first, refused);
    let again = crate::transaction::failed(previous, first);
    let retried = again.reverse();
    let tail = answers.skip(count).take(retried.len() as int);
    lemma_words(previous);
    lemma_words(again);
    lemma_words(retried);
    assert(course.requests =~= releases(previous) + releases(backwards(again)));
    assert(tail.len() == retried.len());
    assert(tail =~= answers.skip(count));
    crate::ownership::law_cleanup_names_each_refusal_once(retried, tail, 0);
    assert forall|i: int| 0 <= i < tail.len() implies #[trigger] tail[i] == answers[count + i] by {}
    if course.outcome.uncertain.len() == 0 {
        assert forall|i: int| count <= i < answers.len() implies (#[trigger] answers[i]) is Ok by {
            assert(tail[i - count] is Ok);
        }
    }
    crate::ownership::lemma_first_failure(previous.len(), answers);
    let place = crate::transaction::first_failure(previous.len(), answers);
    if place > refused {
        assert(answers[refused] is Ok);
    }
    if place < refused {
        assert(answers[place] is Ok);
    }
}

proof fn lemma_at_least_released(
    previous: Seq<HotKey>,
    next: Seq<HotKey>,
    answers: Seq<Result<(), Seq<char>>>,
)
    ensures
        crate::transaction::replacement(previous, next, answers).requests.len() >= previous.len(),
{
}

proof fn lemma_first_failed(
    keys: Seq<HotKey>,
    answers: Seq<Result<(), Seq<char>>>,
    place: int,
)
    requires
        keys.len() == answers.len(),
        0 <= place < keys.len(),
        forall|i: int| 0 <= i < place ==> (#[trigger] answers[i]) is Ok,
        answers[place] is Err,
    ensures
        crate::transaction::failed(keys, answers).len() > 0,
        crate::transaction::failed(keys, answers)[0] == keys[place],
    decreases keys.len(),
{
    let fewer = answers.drop_last();
    if place < keys.len() - 1 {
        assert(fewer[place] == answers[place]);
        assert forall|i: int| 0 <= i < place implies (#[trigger] fewer[i]) is Ok by {
            assert(fewer[i] == answers[i]);
        }
        lemma_first_failed(keys.drop_last(), fewer, place);
    } else {
        assert forall|i: int| 0 <= i < fewer.len() implies (#[trigger] fewer[i]) is Ok by {
            assert(fewer[i] == answers[i]);
        }
        crate::ownership::lemma_nothing_failed(keys.drop_last(), fewer);
    }
}

} // verus!
