//! What a replacement of shortcuts does to the shortcuts that are registered.

use crate::hotkey::HotKey;
use crate::transaction::{Operation, Request, TransactionState};
use vstd::prelude::*;

verus! {

/// The identities of shortcuts.
pub open spec fn ids(keys: Seq<HotKey>) -> Set<u32> {
    Set::new(|id: u32| crate::transaction::has_id(keys, id))
}

/// The identities that are registered after the requests, where `owned` were
/// before: a registration counts where the system accepts it, and a release
/// where the system confirms it.
pub open spec fn owned_after(
    owned: Set<u32>,
    requests: Seq<Request>,
    answers: Seq<Result<(), Seq<char>>>,
) -> Set<u32>
    decreases requests.len(),
{
    if requests.len() == 0 {
        owned
    } else {
        let before = owned_after(owned, requests.drop_last(), answers.drop_last());
        let request = requests.last();
        if answers.last() is Err {
            before
        } else {
            match request.operation {
                Operation::Register => before.insert(request.key@.id),
                Operation::Unregister => before.remove(request.key@.id),
            }
        }
    }
}

proof fn lemma_owned_in_stretches(
    owned: Set<u32>,
    r1: Seq<Request>,
    r2: Seq<Request>,
    a1: Seq<Result<(), Seq<char>>>,
    a2: Seq<Result<(), Seq<char>>>,
)
    requires
        r1.len() == a1.len(),
        r2.len() == a2.len(),
    ensures
        owned_after(owned, r1 + r2, a1 + a2) == owned_after(owned_after(owned, r1, a1), r2, a2),
    decreases r2.len(),
{
    if r2.len() == 0 {
        assert(r1 + r2 =~= r1);
        assert(a1 + a2 =~= a1);
    } else {
        lemma_owned_in_stretches(owned, r1, r2.drop_last(), a1, a2.drop_last());
        assert((r1 + r2).drop_last() =~= r1 + r2.drop_last());
        assert((a1 + a2).drop_last() =~= a1 + a2.drop_last());
        assert((r1 + r2).last() == r2.last());
        assert((a1 + a2).last() == a2.last());
    }
}

proof fn lemma_has_id_split(keys: Seq<HotKey>, id: u32)
    requires
        keys.len() > 0,
    ensures
        crate::transaction::has_id(keys, id) <==> crate::transaction::has_id(keys.drop_last(), id)
            || keys.last()@.id == id,
{
    if crate::transaction::has_id(keys.drop_last(), id) {
        let i = choose|i: int|
            0 <= i < keys.drop_last().len() && (#[trigger] keys.drop_last()[i])@.id == id;
        assert(keys[i]@.id == id);
    }
    if keys.last()@.id == id {
        assert(keys[keys.len() - 1]@.id == id);
    }
    if crate::transaction::has_id(keys, id) {
        let i = choose|i: int| 0 <= i < keys.len() && (#[trigger] keys[i])@.id == id;
        if i < keys.len() - 1 {
            assert(keys.drop_last()[i]@.id == id);
        }
    }
}

proof fn lemma_has_id_push(keys: Seq<HotKey>, key: HotKey, id: u32)
    ensures
        crate::transaction::has_id(keys.push(key), id) <==> crate::transaction::has_id(keys, id)
            || key@.id == id,
{
    lemma_has_id_split(keys.push(key), id);
    assert(keys.push(key).drop_last() =~= keys);
}

proof fn lemma_has_id_reverse(keys: Seq<HotKey>, id: u32)
    ensures
        crate::transaction::has_id(keys.reverse(), id) == crate::transaction::has_id(keys, id),
{
    let back = keys.reverse();
    if crate::transaction::has_id(keys, id) {
        let i = choose|i: int| 0 <= i < keys.len() && (#[trigger] keys[i])@.id == id;
        assert(back[keys.len() - 1 - i]@.id == id);
    }
    if crate::transaction::has_id(back, id) {
        let i = choose|i: int| 0 <= i < back.len() && (#[trigger] back[i])@.id == id;
        assert(keys[keys.len() - 1 - i]@.id == id);
    }
}

proof fn lemma_each_drop_last(operation: Operation, keys: Seq<HotKey>)
    requires
        keys.len() > 0,
    ensures
        crate::transaction::each(operation, keys).drop_last() == crate::transaction::each(
            operation,
            keys.drop_last(),
        ),
        crate::transaction::each(operation, keys).last() == (Request {
            operation,
            key: keys.last(),
        }),
{
    assert(crate::transaction::each(operation, keys).drop_last() =~= crate::transaction::each(
        operation,
        keys.drop_last(),
    ));
}

/// After each of the shortcuts has been released once, what is still registered
/// of them is among the failures, whether or not these are named once each.
proof fn lemma_releases(
    owned: Set<u32>,
    keys: Seq<HotKey>,
    answers: Seq<Result<(), Seq<char>>>,
    id: u32,
)
    requires
        keys.len() == answers.len(),
        owned_after(
            owned,
            crate::transaction::each(Operation::Unregister, keys),
            answers,
        ).contains(id),
    ensures
        owned.contains(id),
        crate::transaction::has_id(keys, id) ==> crate::transaction::has_id(
            crate::transaction::failed(keys, answers),
            id,
        ) && crate::transaction::has_id(crate::transaction::unconfirmed(keys, answers), id),
    decreases keys.len(),
{
    if keys.len() > 0 {
        lemma_each_drop_last(Operation::Unregister, keys);
        lemma_has_id_split(keys, id);
        lemma_releases(owned, keys.drop_last(), answers.drop_last(), id);
        lemma_has_id_push(
            crate::transaction::failed(keys.drop_last(), answers.drop_last()),
            keys.last(),
            id,
        );
        lemma_has_id_push(
            crate::transaction::unconfirmed(keys.drop_last(), answers.drop_last()),
            keys.last(),
            id,
        );
    }
}

/// The identities registered after accepted registrations.
proof fn lemma_registrations(
    owned: Set<u32>,
    keys: Seq<HotKey>,
    answers: Seq<Result<(), Seq<char>>>,
)
    requires
        keys.len() == answers.len(),
        forall|i: int| 0 <= i < answers.len() ==> (#[trigger] answers[i]) is Ok,
    ensures
        owned_after(owned, crate::transaction::each(Operation::Register, keys), answers)
            == owned.union(ids(keys)),
    decreases keys.len(),
{
    if keys.len() > 0 {
        lemma_each_drop_last(Operation::Register, keys);
        let fewer = answers.drop_last();
        assert forall|i: int| 0 <= i < fewer.len() implies (#[trigger] fewer[i]) is Ok by {
            assert(fewer[i] == answers[i]);
        }
        assert(answers[answers.len() - 1] is Ok);
        lemma_registrations(owned, keys.drop_last(), fewer);
        assert forall|id: u32| #[trigger] ids(keys).contains(id) == ids(
            keys.drop_last(),
        ).insert(keys.last()@.id).contains(id) by {
            lemma_has_id_split(keys, id);
        }
        assert(owned_after(owned, crate::transaction::each(Operation::Register, keys), answers)
            =~= owned.union(ids(keys)));
    } else {
        assert(owned.union(ids(keys)) =~= owned);
    }
}

/// The identities registered where the registrations stop at a refusal.
proof fn lemma_refused_registration(
    owned: Set<u32>,
    keys: Seq<HotKey>,
    answers: Seq<Result<(), Seq<char>>>,
    count: int,
)
    requires
        0 <= count < keys.len(),
        answers.len() == count + 1,
        forall|i: int| 0 <= i < count ==> (#[trigger] answers[i]) is Ok,
        answers[count] is Err,
    ensures
        owned_after(
            owned,
            crate::transaction::each(Operation::Register, keys.take(count + 1)),
            answers,
        ) == owned.union(ids(keys.take(count))),
{
    lemma_each_drop_last(Operation::Register, keys.take(count + 1));
    assert(keys.take(count + 1).drop_last() =~= keys.take(count));
    let fewer = answers.drop_last();
    assert forall|i: int| 0 <= i < fewer.len() implies (#[trigger] fewer[i]) is Ok by {
        assert(fewer[i] == answers[i]);
    }
    lemma_registrations(owned, keys.take(count), fewer);
}

pub proof fn lemma_first_failure(count: nat, answers: Seq<Result<(), Seq<char>>>)
    ensures
        ({
            let place = crate::transaction::first_failure(count, answers);
            &&& 0 <= place <= count
            &&& place < count ==> answers[place] is Err
            &&& forall|i: int| 0 <= i < place ==> (#[trigger] answers[i]) is Ok
        }),
    decreases count,
{
    if count > 0 {
        lemma_first_failure((count - 1) as nat, answers);
    }
}

/// What is registered after the shortcuts that were registered up to a refusal
/// have been released again, nothing having been registered before.
proof fn lemma_refusal_and_cleanup(
    keys: Seq<HotKey>,
    answers: Seq<Result<(), Seq<char>>>,
    count: int,
)
    requires
        count == crate::transaction::first_failure(keys.len(), answers),
        count < keys.len(),
        answers.len() == count + 1 + count,
    ensures
        ({
            let back = keys.take(count).reverse();
            let requests = crate::transaction::each(Operation::Register, keys.take(count + 1))
                + crate::transaction::each(Operation::Unregister, back);
            let uncertain = crate::transaction::unconfirmed(back, answers.skip(count + 1));
            &&& requests.len() == answers.len()
            &&& owned_after(Set::empty(), requests, answers).subset_of(ids(uncertain))
        }),
{
    let back = keys.take(count).reverse();
    let r1 = crate::transaction::each(Operation::Register, keys.take(count + 1));
    let r2 = crate::transaction::each(Operation::Unregister, back);
    let a1 = answers.take(count + 1);
    let a2 = answers.skip(count + 1);
    lemma_first_failure(keys.len(), answers);
    assert forall|i: int| 0 <= i < count implies (#[trigger] a1[i]) is Ok by {
        assert(a1[i] == answers[i]);
    }
    lemma_refused_registration(Set::empty(), keys, a1, count);
    assert(answers =~= a1 + a2);
    lemma_owned_in_stretches(Set::empty(), r1, r2, a1, a2);
    let between = owned_after(Set::empty(), r1, a1);
    assert forall|id: u32| #[trigger]
        owned_after(Set::empty(), r1 + r2, answers).contains(id) implies ids(
        crate::transaction::unconfirmed(back, a2),
    ).contains(id) by {
        lemma_releases(between, back, a2, id);
        lemma_has_id_reverse(keys.take(count), id);
        assert(ids(keys.take(count)).contains(id));
    }
}

/// The outcome of a replacement is what happened. Where at most the previous
/// shortcuts were registered before, then after it exactly the new ones are
/// registered where it says so, exactly the previous ones where it says that
/// they are, none where it says none, and else none that it does not name as
/// uncertain.
pub proof fn law_outcome_is_truthful(
    owned: Set<u32>,
    previous: Seq<HotKey>,
    next: Seq<HotKey>,
    answers: Seq<Result<(), Seq<char>>>,
)
    requires
        owned.subset_of(ids(previous)),
        crate::transaction::replacement(previous, next, answers).requests.len() == answers.len(),
    ensures
        ({
            let course = crate::transaction::replacement(previous, next, answers);
            let after = owned_after(owned, course.requests, answers);
            match course.outcome.state {
                TransactionState::NewActive => {
                    &&& after == ids(next)
                    &&& course.outcome.known_active == next
                    &&& course.outcome.uncertain.len() == 0
                },
                TransactionState::PreviousActive => {
                    &&& after == ids(previous)
                    &&& course.outcome.known_active == previous
                    &&& course.outcome.uncertain.len() == 0
                },
                TransactionState::Inactive => {
                    &&& after == Set::<u32>::empty()
                    &&& course.outcome.known_active.len() == 0
                    &&& course.outcome.uncertain.len() == 0
                },
                TransactionState::Unknown => {
                    &&& after.subset_of(ids(course.outcome.uncertain))
                    &&& course.outcome.known_active.len() == 0
                    &&& course.outcome.uncertain.len() > 0
                },
            }
        }),
{
    let course = crate::transaction::replacement(previous, next, answers);
    let count = previous.len() as int;
    let release = crate::transaction::each(Operation::Unregister, previous);
    let first = answers.take(count);
    let rest = answers.skip(count);
    assert(release.len() == count);
    assert(answers.len() >= count);
    assert(answers =~= first + rest);
    let released = owned_after(owned, release, first);
    let unreleased = crate::transaction::failed(previous, first);
    assert forall|id: u32| #[trigger] released.contains(id) implies crate::transaction::has_id(
        unreleased,
        id,
    ) by {
        lemma_releases(owned, previous, first, id);
        assert(ids(previous).contains(id));
    }
    if unreleased.len() > 0 {
        let retried = unreleased.reverse();
        let again = crate::transaction::each(Operation::Unregister, retried);
        assert(again.len() == rest.len());
        assert(rest.take(retried.len() as int) =~= rest);
        lemma_owned_in_stretches(owned, release, again, first, rest);
        let after = owned_after(owned, course.requests, answers);
        assert forall|id: u32| #[trigger] after.contains(id) implies ids(
            crate::transaction::unconfirmed(retried, rest),
        ).contains(id) by {
            lemma_releases(released, retried, rest, id);
            lemma_has_id_reverse(unreleased, id);
        }
        if course.outcome.uncertain.len() == 0 {
            assert(after =~= Set::empty());
        }
    } else {
        assert(released =~= Set::empty());
        let tail = crate::transaction::registered(previous, next, rest);
        lemma_owned_in_stretches(owned, release, tail.requests, first, rest);
        lemma_registration_is_truthful(previous, next, rest);
    }
}

/// The same of the part that follows the release of the previous shortcuts.
proof fn lemma_registration_is_truthful(
    previous: Seq<HotKey>,
    next: Seq<HotKey>,
    answers: Seq<Result<(), Seq<char>>>,
)
    requires
        crate::transaction::registered(previous, next, answers).requests.len() == answers.len(),
    ensures
        ({
            let course = crate::transaction::registered(previous, next, answers);
            let after = owned_after(Set::empty(), course.requests, answers);
            match course.outcome.state {
                TransactionState::NewActive => {
                    &&& after == ids(next)
                    &&& course.outcome.known_active == next
                    &&& course.outcome.uncertain.len() == 0
                },
                TransactionState::PreviousActive => {
                    &&& after == ids(previous)
                    &&& course.outcome.known_active == previous
                    &&& course.outcome.uncertain.len() == 0
                },
                TransactionState::Inactive => {
                    &&& after == Set::<u32>::empty()
                    &&& course.outcome.known_active.len() == 0
                    &&& course.outcome.uncertain.len() == 0
                },
                TransactionState::Unknown => {
                    &&& after.subset_of(ids(course.outcome.uncertain))
                    &&& course.outcome.known_active.len() == 0
                    &&& course.outcome.uncertain.len() > 0
                },
            }
        }),
{
    let course = crate::transaction::registered(previous, next, answers);
    let done = crate::transaction::first_failure(next.len(), answers);
    lemma_first_failure(next.len(), answers);
    if done == next.len() {
        assert(crate::transaction::each(Operation::Register, next).len() == next.len());
        lemma_registrations(Set::empty(), next, answers);
        assert(Set::<u32>::empty().union(ids(next)) =~= ids(next));
    } else {
        let back = next.take(done).reverse();
        let requests = crate::transaction::each(Operation::Register, next.take(done + 1))
            + crate::transaction::each(Operation::Unregister, back);
        let size = done + 1 + done;
        assert(requests.len() == size);
        let first = answers.take(size);
        let rest = answers.skip(size);
        assert(answers.len() >= size);
        assert(first.skip(done + 1) =~= answers.skip(done + 1).take(done));
        lemma_same_first_failure(next.len(), answers, first, done);
        lemma_refusal_and_cleanup(next, first, done);
        let uncertain = crate::transaction::unconfirmed(back, first.skip(done + 1));
        if uncertain.len() > 0 || previous.len() == 0 {
            assert(first =~= answers);
            if uncertain.len() == 0 {
                assert(owned_after(Set::empty(), requests, answers) =~= Set::empty());
            }
        } else {
            assert(owned_after(Set::empty(), requests, first) =~= Set::empty());
            assert(answers.skip(done + 1).skip(back.len() as int) =~= rest);
            assert(answers =~= first + rest);
            let error = answers[done]->Err_0;
            let rollback = crate::transaction::rolled_back(previous, error, rest);
            lemma_owned_in_stretches(Set::empty(), requests, rollback.requests, first, rest);
            lemma_rollback_is_truthful(previous, error, rest);
        }
    }
}

proof fn lemma_same_first_failure(
    count: nat,
    long: Seq<Result<(), Seq<char>>>,
    short: Seq<Result<(), Seq<char>>>,
    place: int,
)
    requires
        place == crate::transaction::first_failure(count, long),
        place < count,
        place < short.len() <= long.len(),
        forall|i: int| 0 <= i < short.len() ==> short[i] == #[trigger] long[i],
    ensures
        crate::transaction::first_failure(count, short) == place,
{
    lemma_first_failure(count, long);
    lemma_first_failure(count, short);
    let other = crate::transaction::first_failure(count, short);
    if other < place {
        assert(short[other] == long[other]);
    }
    if other > place {
        assert(short[place] == long[place]);
        assert(short[place] is Ok);
    }
}

/// The same of the part that restores the previous shortcuts.
proof fn lemma_rollback_is_truthful(
    previous: Seq<HotKey>,
    error: Seq<char>,
    answers: Seq<Result<(), Seq<char>>>,
)
    requires
        crate::transaction::rolled_back(previous, error, answers).requests.len() == answers.len(),
    ensures
        ({
            let course = crate::transaction::rolled_back(previous, error, answers);
            let after = owned_after(Set::empty(), course.requests, answers);
            match course.outcome.state {
                TransactionState::NewActive => false,
                TransactionState::PreviousActive => {
                    &&& after == ids(previous)
                    &&& course.outcome.known_active == previous
                    &&& course.outcome.uncertain.len() == 0
                },
                TransactionState::Inactive => {
                    &&& after == Set::<u32>::empty()
                    &&& course.outcome.known_active.len() == 0
                    &&& course.outcome.uncertain.len() == 0
                },
                TransactionState::Unknown => {
                    &&& after.subset_of(ids(course.outcome.uncertain))
                    &&& course.outcome.known_active.len() == 0
                    &&& course.outcome.uncertain.len() > 0
                },
            }
        }),
{
    let course = crate::transaction::rolled_back(previous, error, answers);
    let restored = crate::transaction::first_failure(previous.len(), answers);
    lemma_first_failure(previous.len(), answers);
    if restored == previous.len() {
        assert(crate::transaction::each(Operation::Register, previous).len() == previous.len());
        lemma_registrations(Set::empty(), previous, answers);
        assert(Set::<u32>::empty().union(ids(previous)) =~= ids(previous));
    } else {
        let back = previous.take(restored).reverse();
        lemma_refusal_and_cleanup(previous, answers, restored);
        assert(answers.skip(restored + 1).take(restored) =~= answers.skip(restored + 1));
        if course.outcome.uncertain.len() == 0 {
            assert(owned_after(Set::empty(), course.requests, answers) =~= Set::empty());
        }
    }
}

proof fn lemma_failed_are_among(
    keys: Seq<HotKey>,
    answers: Seq<Result<(), Seq<char>>>,
    key: HotKey,
)
    requires
        crate::transaction::failed(keys, answers).contains(key),
    ensures
        keys.contains(key),
    decreases keys.len(),
{
    let list = crate::transaction::failed(keys, answers);
    if keys.len() > 0 {
        let before = crate::transaction::failed(keys.drop_last(), answers.drop_last());
        let i = choose|i: int| 0 <= i < list.len() && list[i] == key;
        if i < before.len() {
            assert(before[i] == key);
            lemma_failed_are_among(keys.drop_last(), answers.drop_last(), key);
            let j = choose|j: int| 0 <= j < keys.drop_last().len() && keys.drop_last()[j] == key;
            assert(keys[j] == key);
        } else {
            assert(keys[keys.len() - 1] == key);
        }
    }
}

/// Whether `key` has been registered by one of the first `count` requests.
pub open spec fn registered_before(
    requests: Seq<Request>,
    answers: Seq<Result<(), Seq<char>>>,
    count: int,
    key: HotKey,
) -> bool {
    exists|j: int|
        0 <= j < count && #[trigger] requests[j] == (Request {
            operation: Operation::Register,
            key,
        }) && answers[j] is Ok
}

/// A shortcut is only released where it was one of the previous ones, or where
/// the replacement itself has registered it.
pub proof fn law_only_own_shortcuts_are_released(
    previous: Seq<HotKey>,
    next: Seq<HotKey>,
    answers: Seq<Result<(), Seq<char>>>,
    i: int,
)
    requires
        crate::transaction::replacement(previous, next, answers).requests.len() == answers.len(),
        0 <= i < answers.len(),
        crate::transaction::replacement(previous, next, answers).requests[i].operation
            == Operation::Unregister,
    ensures
        ({
            let requests = crate::transaction::replacement(previous, next, answers).requests;
            ||| previous.contains(requests[i].key)
            ||| registered_before(requests, answers, i, requests[i].key)
        }),
{
    let requests = crate::transaction::replacement(previous, next, answers).requests;
    let key = requests[i].key;
    let count = previous.len() as int;
    if i < count {
        assert(key == previous[i]);
    } else if crate::transaction::failed(previous, answers.take(count)).len() > 0 {
        let list = crate::transaction::failed(previous, answers.take(count));
        assert(key == list.reverse()[i - count]);
        assert(list[list.len() - 1 - (i - count)] == key);
        lemma_failed_are_among(previous, answers.take(count), key);
    } else {
        let rest = answers.skip(count);
        let tail = crate::transaction::registered(previous, next, rest).requests;
        let done = crate::transaction::first_failure(next.len(), rest);
        lemma_first_failure(next.len(), rest);
        assert(requests[i] == tail[i - count]);
        let place = i - count;
        assert(place > done);
        let size = done + 1 + done;
        if place < size {
            let back = next.take(done).reverse();
            let j = done - 1 - (place - (done + 1));
            assert(key == back[place - (done + 1)]);
            assert(key == next[j]);
            assert(tail[j] == (Request { operation: Operation::Register, key }));
            assert(requests[count + j] == tail[j]);
            assert(rest[j] is Ok && rest[j] == answers[count + j]);
            assert(registered_before(requests, answers, i, key));
        } else {
            let after = rest.skip(done + 1).skip(done);
            let error = rest[done]->Err_0;
            let rollback = crate::transaction::rolled_back(previous, error, after).requests;
            let restored = crate::transaction::first_failure(previous.len(), after);
            lemma_first_failure(previous.len(), after);
            assert(tail[place] == rollback[place - size]);
            assert(place - size > restored);
            let back = previous.take(restored).reverse();
            assert(key == back[place - size - (restored + 1)]);
            assert(key == previous[restored - 1 - (place - size - (restored + 1))]);
        }
    }
}

/// Whether no two of the shortcuts have the same identity.
#[verifier::opaque]
pub open spec fn one_of_each(keys: Seq<HotKey>) -> bool {
    crate::hotkey::distinct_ids(crate::hotkey::keys_view(keys))
}

proof fn lemma_one_of_each(keys: Seq<HotKey>)
    requires
        forall|a: int, b: int|
            0 <= a < b < keys.len() ==> (#[trigger] keys[a])@.id != (#[trigger] keys[b])@.id,
    ensures
        one_of_each(keys),
{
    reveal(one_of_each);
    let views = crate::hotkey::keys_view(keys);
    assert forall|a: int, b: int| 0 <= a < b < views.len() implies (#[trigger] views[a]).id != (
    #[trigger] views[b]).id by {
        assert(keys[a]@.id != keys[b]@.id);
    }
}

proof fn lemma_differ(keys: Seq<HotKey>, a: int, b: int)
    requires
        one_of_each(keys),
        0 <= a < keys.len(),
        0 <= b < keys.len(),
        a != b,
    ensures
        keys[a]@.id != keys[b]@.id,
{
    reveal(one_of_each);
    let views = crate::hotkey::keys_view(keys);
    assert(views[a] == keys[a]@ && views[b] == keys[b]@);
    if a < b {
        assert(views[a].id != views[b].id);
    } else {
        assert(views[b].id != views[a].id);
    }
}

/// Whether the last thing asked about a shortcut before `count` was to register
/// it, and the system did so. No request about the same identity came between.
pub open spec fn just_registered(
    requests: Seq<Request>,
    answers: Seq<Result<(), Seq<char>>>,
    count: int,
    key: HotKey,
) -> bool {
    exists|j: int|
        {
            &&& 0 <= j < count
            &&& #[trigger] requests[j] == (Request { operation: Operation::Register, key })
            &&& answers[j] is Ok
            &&& forall|k: int| j < k < count ==> (#[trigger] requests[k]).key@.id != key@.id
        }
}

/// Whether a release before `start` was refused, and none has been tried again
/// since then.
pub open spec fn refused_once(
    requests: Seq<Request>,
    answers: Seq<Result<(), Seq<char>>>,
    start: int,
    count: int,
    key: HotKey,
) -> bool {
    &&& exists|j: int|
        {
            &&& 0 <= j < start
            &&& #[trigger] requests[j] == (Request { operation: Operation::Unregister, key })
            &&& answers[j] is Err
        }
    &&& forall|k: int| start <= k < count ==> (#[trigger] requests[k]).key@.id != key@.id
}

proof fn lemma_failed_place(
    keys: Seq<HotKey>,
    answers: Seq<Result<(), Seq<char>>>,
    m: int,
) -> (j: int)
    requires
        keys.len() == answers.len(),
        0 <= m < crate::transaction::failed(keys, answers).len(),
    ensures
        0 <= j < keys.len(),
        keys[j] == crate::transaction::failed(keys, answers)[m],
        answers[j] is Err,
    decreases keys.len(),
{
    let before = crate::transaction::failed(keys.drop_last(), answers.drop_last());
    if m < before.len() {
        lemma_failed_place(keys.drop_last(), answers.drop_last(), m)
    } else {
        keys.len() - 1
    }
}

proof fn lemma_failed_one_of_each(keys: Seq<HotKey>, answers: Seq<Result<(), Seq<char>>>)
    requires
        keys.len() == answers.len(),
        one_of_each(keys),
    ensures
        one_of_each(crate::transaction::failed(keys, answers)),
    decreases keys.len(),
{
    let list = crate::transaction::failed(keys, answers);
    if keys.len() > 0 {
        let fewer = keys.drop_last();
        let before = crate::transaction::failed(fewer, answers.drop_last());
        assert forall|a: int, b: int| 0 <= a < b < fewer.len() implies (#[trigger] fewer[a])@.id
            != (#[trigger] fewer[b])@.id by {
            lemma_differ(keys, a, b);
        }
        lemma_one_of_each(fewer);
        lemma_failed_one_of_each(fewer, answers.drop_last());
        assert forall|a: int, b: int| 0 <= a < b < list.len() implies (#[trigger] list[a])@.id != (
        #[trigger] list[b])@.id by {
            if b < before.len() {
                lemma_differ(before, a, b);
            } else {
                let j = lemma_failed_place(fewer, answers.drop_last(), a);
                lemma_differ(keys, j, keys.len() - 1);
            }
        }
    }
    lemma_one_of_each(list);
}

/// Registering shortcuts up to a refusal and releasing them again, the last one
/// first, releases each right after it was registered.
proof fn lemma_released_what_was_registered(
    requests: Seq<Request>,
    answers: Seq<Result<(), Seq<char>>>,
    keys: Seq<HotKey>,
    start: int,
    done: int,
    i: int,
)
    requires
        one_of_each(keys),
        0 <= start,
        0 <= done < keys.len(),
        forall|k: int|
            start <= k <= start + done ==> #[trigger] requests[k] == (Request {
                operation: Operation::Register,
                key: keys[k - start],
            }),
        forall|k: int|
            start + done < k <= start + done + done ==> #[trigger] requests[k] == (Request {
                operation: Operation::Unregister,
                key: keys[start + done + done - k],
            }),
        forall|k: int| start <= k < start + done ==> (#[trigger] answers[k]) is Ok,
        start + done < i <= start + done + done,
    ensures
        just_registered(requests, answers, i, requests[i].key),
{
    let at = start + done + done - i;
    let key = requests[i].key;
    let j = start + at;
    assert(requests[j] == (Request { operation: Operation::Register, key }));
    assert(answers[j] is Ok);
    assert forall|k: int| j < k < i implies (#[trigger] requests[k]).key@.id != key@.id by {
        if k <= start + done {
            lemma_differ(keys, at, k - start);
        } else {
            lemma_differ(keys, at, start + done + done - k);
        }
    }
}

/// A shortcut that the system refused, and that may belong to another
/// application, is left alone. After each of the previous shortcuts has been
/// released, and those whose release was refused have been tried once more, a
/// shortcut is released only where the last thing asked about it was to register
/// it and the system did so.
pub proof fn law_refused_shortcuts_are_left_alone(
    previous: Seq<HotKey>,
    next: Seq<HotKey>,
    answers: Seq<Result<(), Seq<char>>>,
    i: int,
)
    requires
        one_of_each(previous),
        one_of_each(next),
        crate::transaction::replacement(previous, next, answers).requests.len() == answers.len(),
        0 <= i < answers.len(),
        crate::transaction::replacement(previous, next, answers).requests[i].operation
            == Operation::Unregister,
    ensures
        ({
            let requests = crate::transaction::replacement(previous, next, answers).requests;
            let key = requests[i].key;
            let count = previous.len() as int;
            ||| i < count && key == previous[i]
            ||| i >= count && refused_once(requests, answers, count, i, key)
            ||| i >= count && just_registered(requests, answers, i, key)
        }),
{
    let requests = crate::transaction::replacement(previous, next, answers).requests;
    let key = requests[i].key;
    let count = previous.len() as int;
    let first = answers.take(count);
    if i < count {
        assert(key == previous[i]);
    } else if crate::transaction::failed(previous, first).len() > 0 {
        let list = crate::transaction::failed(previous, first);
        let m = list.len() - 1 - (i - count);
        assert(key == list.reverse()[i - count]);
        assert(list[m] == key);
        let j = lemma_failed_place(previous, first, m);
        assert(requests[j] == (Request { operation: Operation::Unregister, key }));
        assert(answers[j] == first[j]);
        lemma_failed_one_of_each(previous, first);
        assert forall|k: int| count <= k < i implies (#[trigger] requests[k]).key@.id
            != key@.id by {
            assert(requests[k].key == list.reverse()[k - count]);
            lemma_differ(list, list.len() - 1 - (k - count), m);
        }
    } else {
        let rest = answers.skip(count);
        let tail = crate::transaction::registered(previous, next, rest).requests;
        let done = crate::transaction::first_failure(next.len(), rest);
        lemma_first_failure(next.len(), rest);
        assert forall|k: int| count <= k < requests.len() implies #[trigger] requests[k]
            == tail[k - count] by {}
        let place = i - count;
        assert(place > done);
        let size = done + 1 + done;
        if place < size {
            assert forall|k: int| count <= k < count + done implies (#[trigger] answers[k]) is Ok by {
                assert(rest[k - count] == answers[k]);
            }
            lemma_released_what_was_registered(requests, answers, next, count, done, i);
        } else {
            let after = rest.skip(done + 1).skip(done);
            let error = rest[done]->Err_0;
            let rollback = crate::transaction::rolled_back(previous, error, after).requests;
            let restored = crate::transaction::first_failure(previous.len(), after);
            lemma_first_failure(previous.len(), after);
            let start = count + size;
            assert forall|k: int| start <= k < requests.len() implies #[trigger] requests[k]
                == rollback[k - start] by {}
            assert(i - start > restored);
            assert forall|k: int| start <= k < start + restored implies (
            #[trigger] answers[k]) is Ok by {
                assert(after[k - start] == answers[k]);
            }
            lemma_released_what_was_registered(requests, answers, previous, start, restored, i);
        }
    }
}

/// Where the system accepts everything that is asked, the new shortcuts are
/// active after a replacement.
pub proof fn law_replacement_succeeds_where_nothing_is_refused(
    previous: Seq<HotKey>,
    next: Seq<HotKey>,
    answers: Seq<Result<(), Seq<char>>>,
)
    requires
        answers.len() >= previous.len() + next.len(),
        forall|i: int| 0 <= i < answers.len() ==> (#[trigger] answers[i]) is Ok,
    ensures
        crate::transaction::replacement(previous, next, answers).outcome.state
            == TransactionState::NewActive,
        crate::transaction::replacement(previous, next, answers).outcome.known_active == next,
{
    let count = previous.len() as int;
    let first = answers.take(count);
    assert forall|i: int| 0 <= i < first.len() implies (#[trigger] first[i]) is Ok by {
        assert(first[i] == answers[i]);
    }
    lemma_nothing_failed(previous, first);
    let rest = answers.skip(count);
    lemma_first_failure(next.len(), rest);
    let done = crate::transaction::first_failure(next.len(), rest);
    if done < next.len() {
        assert(rest[done] == answers[count + done]);
    }
}

/// The new shortcuts are active exactly where the system accepted everything
/// that it was asked. It was then asked to release each of the previous
/// shortcuts and to register each of the new ones, in order. Where it refused to
/// release one, it is not asked to register any.
pub proof fn law_new_shortcuts_are_active_where_all_is_accepted(
    previous: Seq<HotKey>,
    next: Seq<HotKey>,
    answers: Seq<Result<(), Seq<char>>>,
)
    requires
        crate::transaction::replacement(previous, next, answers).requests.len() == answers.len(),
    ensures
        ({
            let course = crate::transaction::replacement(previous, next, answers);
            let active = course.outcome.state == TransactionState::NewActive;
            &&& active <==> forall|i: int|
                0 <= i < answers.len() ==> (#[trigger] answers[i]) is Ok
            &&& active ==> course.requests == crate::transaction::each(
                Operation::Unregister,
                previous,
            ) + crate::transaction::each(Operation::Register, next)
            &&& (exists|i: int| 0 <= i < previous.len() && (#[trigger] answers[i]) is Err)
                ==> forall|k: int|
                0 <= k < course.requests.len() ==> (#[trigger] course.requests[k]).operation
                    == Operation::Unregister
        }),
{
    let course = crate::transaction::replacement(previous, next, answers);
    let count = previous.len() as int;
    let first = answers.take(count);
    let rest = answers.skip(count);
    let done = crate::transaction::first_failure(next.len(), rest);
    lemma_first_failure(next.len(), rest);
    let release = crate::transaction::each(Operation::Unregister, previous);
    assert(release.len() == count);
    if crate::transaction::failed(previous, first).len() == 0 {
        lemma_all_released(previous, first);
        assert forall|i: int| 0 <= i < count implies (#[trigger] answers[i]) is Ok by {
            assert(first[i] == answers[i]);
        }
        if done < next.len() {
            assert(rest[done] == answers[count + done]);
        } else {
            assert(course.requests.len() == count + next.len());
            assert forall|i: int| 0 <= i < answers.len() implies (#[trigger] answers[i]) is Ok by {
                if i >= count {
                    assert(rest[i - count] == answers[i]);
                }
            }
        }
    } else {
        let j = lemma_failed_place(previous, first, 0);
        assert(answers[j] == first[j]);
        assert forall|k: int| 0 <= k < course.requests.len() implies (
        #[trigger] course.requests[k]).operation == Operation::Unregister by {}
    }
}

proof fn lemma_all_released(keys: Seq<HotKey>, answers: Seq<Result<(), Seq<char>>>)
    requires
        keys.len() == answers.len(),
        crate::transaction::failed(keys, answers).len() == 0,
    ensures
        forall|i: int| 0 <= i < answers.len() ==> (#[trigger] answers[i]) is Ok,
    decreases keys.len(),
{
    if keys.len() > 0 {
        let fewer = answers.drop_last();
        lemma_all_released(keys.drop_last(), fewer);
        assert forall|i: int| 0 <= i < answers.len() implies (#[trigger] answers[i]) is Ok by {
            if i < fewer.len() {
                assert(fewer[i] == answers[i]);
            } else {
                assert(answers[i] == answers.last());
            }
        }
    }
}

pub proof fn lemma_nothing_failed(keys: Seq<HotKey>, answers: Seq<Result<(), Seq<char>>>)
    requires
        keys.len() == answers.len(),
        forall|i: int| 0 <= i < answers.len() ==> (#[trigger] answers[i]) is Ok,
    ensures
        crate::transaction::failed(keys, answers).len() == 0,
    decreases keys.len(),
{
    if keys.len() > 0 {
        let fewer = answers.drop_last();
        assert forall|i: int| 0 <= i < fewer.len() implies (#[trigger] fewer[i]) is Ok by {
            assert(fewer[i] == answers[i]);
        }
        assert(answers[answers.len() - 1] is Ok);
        lemma_nothing_failed(keys.drop_last(), fewer);
    }
}

proof fn lemma_has_id_join(first: Seq<HotKey>, second: Seq<HotKey>, id: u32)
    ensures
        crate::transaction::has_id(first + second, id) <==> crate::transaction::has_id(first, id)
            || crate::transaction::has_id(second, id),
{
    let all = first + second;
    if crate::transaction::has_id(first, id) {
        let i = choose|i: int| 0 <= i < first.len() && (#[trigger] first[i])@.id == id;
        assert(all[i]@.id == id);
    }
    if crate::transaction::has_id(second, id) {
        let i = choose|i: int| 0 <= i < second.len() && (#[trigger] second[i])@.id == id;
        assert(all[first.len() + i]@.id == id);
    }
    if crate::transaction::has_id(all, id) {
        let i = choose|i: int| 0 <= i < all.len() && (#[trigger] all[i])@.id == id;
        if i < first.len() {
            assert(first[i]@.id == id);
        } else {
            assert(second[i - first.len()]@.id == id);
        }
    }
}

/// Replacing the shortcuts keeps the program's books: where every shortcut that
/// is registered was among those known to be or suspected to be, it still is.
pub proof fn law_program_knows_what_it_registered(
    app: crate::timer_app::AppView,
    owned: Set<u32>,
    next: Seq<HotKey>,
    answers: Seq<Result<(), Seq<char>>>,
)
    requires
        owned.subset_of(ids(app.known_active + app.uncertain)),
        crate::transaction::replacement(
            app.known_active + app.uncertain,
            next,
            answers,
        ).requests.len() == answers.len(),
    ensures
        ({
            let course = crate::transaction::replacement(
                app.known_active + app.uncertain,
                next,
                answers,
            );
            let after = app.after_transaction(next, course.outcome);
            owned_after(owned, course.requests, answers).subset_of(
                ids(after.known_active + after.uncertain),
            )
        }),
{
    let previous = app.known_active + app.uncertain;
    let course = crate::transaction::replacement(previous, next, answers);
    let after = app.after_transaction(next, course.outcome);
    law_outcome_is_truthful(owned, previous, next, answers);
    assert forall|id: u32| #[trigger]
        owned_after(owned, course.requests, answers).contains(id) implies ids(
        after.known_active + after.uncertain,
    ).contains(id) by {
        lemma_has_id_join(after.known_active, after.uncertain, id);
    }
}

/// Failures are named once each.
proof fn lemma_unconfirmed_one_of_each(keys: Seq<HotKey>, answers: Seq<Result<(), Seq<char>>>)
    ensures
        one_of_each(crate::transaction::unconfirmed(keys, answers)),
    decreases keys.len(),
{
    let list = crate::transaction::unconfirmed(keys, answers);
    if keys.len() > 0 {
        let before = crate::transaction::unconfirmed(keys.drop_last(), answers.drop_last());
        lemma_unconfirmed_one_of_each(keys.drop_last(), answers.drop_last());
        assert forall|a: int, b: int| 0 <= a < b < list.len() implies (#[trigger] list[a])@.id != (
        #[trigger] list[b])@.id by {
            assert(list[a] == before[a]);
            if b < before.len() {
                lemma_differ(before, a, b);
            }
        }
    }
    lemma_one_of_each(list);
}

/// Cleaning up names every identity of which a release was refused, once each,
/// and no other: nothing where every release was confirmed.
pub proof fn law_cleanup_names_each_refusal_once(
    keys: Seq<HotKey>,
    answers: Seq<Result<(), Seq<char>>>,
    id: u32,
)
    requires
        keys.len() == answers.len(),
    ensures
        one_of_each(crate::transaction::unconfirmed(keys, answers)),
        crate::transaction::has_id(crate::transaction::unconfirmed(keys, answers), id)
            <==> exists|i: int|
            0 <= i < keys.len() && (#[trigger] keys[i])@.id == id && answers[i] is Err,
        crate::transaction::unconfirmed(keys, answers).len() == 0 <==> forall|i: int|
            0 <= i < answers.len() ==> (#[trigger] answers[i]) is Ok,
    decreases keys.len(),
{
    lemma_unconfirmed_one_of_each(keys, answers);
    if keys.len() > 0 {
        let fewer = keys.drop_last();
        let earlier = answers.drop_last();
        let before = crate::transaction::unconfirmed(fewer, earlier);
        let last = keys.len() - 1;
        law_cleanup_names_each_refusal_once(fewer, earlier, id);
        lemma_has_id_push(before, keys.last(), id);
        let refused = exists|i: int|
            0 <= i < keys.len() && (#[trigger] keys[i])@.id == id && answers[i] is Err;
        if crate::transaction::has_id(before, id) {
            let i = choose|i: int|
                0 <= i < fewer.len() && (#[trigger] fewer[i])@.id == id && earlier[i] is Err;
            assert(keys[i]@.id == id && answers[i] is Err);
        }
        if refused {
            let i = choose|i: int|
                0 <= i < keys.len() && (#[trigger] keys[i])@.id == id && answers[i] is Err;
            if i < last {
                assert(fewer[i]@.id == id && earlier[i] is Err);
            }
        }
        if answers.last() is Err && keys.last()@.id == id {
            assert(keys[last]@.id == id && answers[last] is Err);
        }
        if crate::transaction::unconfirmed(keys, answers).len() == 0 {
            if answers.last() is Err {
                assert(crate::transaction::has_id(before, keys.last()@.id));
            }
            assert forall|i: int| 0 <= i < answers.len() implies (#[trigger] answers[i]) is Ok by {
                if i < last {
                    assert(earlier[i] == answers[i]);
                } else {
                    assert(answers[i] == answers.last());
                }
            }
        }
        if forall|i: int| 0 <= i < answers.len() ==> (#[trigger] answers[i]) is Ok {
            assert forall|i: int| 0 <= i < earlier.len() implies (#[trigger] earlier[i]) is Ok by {
                assert(earlier[i] == answers[i]);
            }
            assert(answers[last] is Ok);
        }
    }
}

/// What a replacement leaves uncertain is named once each.
proof fn lemma_uncertain_one_of_each(
    previous: Seq<HotKey>,
    next: Seq<HotKey>,
    answers: Seq<Result<(), Seq<char>>>,
)
    ensures
        one_of_each(crate::transaction::replacement(previous, next, answers).outcome.uncertain),
{
    let count = previous.len() as int;
    let none = Seq::<HotKey>::empty();
    lemma_one_of_each(none);
    let retried = crate::transaction::failed(previous, answers.take(count)).reverse();
    lemma_unconfirmed_one_of_each(
        retried,
        answers.skip(count).take(retried.len() as int),
    );
    let rest = answers.skip(count);
    let done = crate::transaction::first_failure(next.len(), rest);
    let released = next.take(done).reverse();
    lemma_unconfirmed_one_of_each(released, rest.skip(done + 1).take(released.len() as int));
    let after = rest.skip(done + 1).skip(released.len() as int);
    let restored = crate::transaction::first_failure(previous.len(), after);
    let back = previous.take(restored).reverse();
    lemma_unconfirmed_one_of_each(back, after.skip(restored + 1).take(back.len() as int));
}

/// The program lists each shortcut once: where no identity was listed twice
/// among those known or suspected to be registered, none is after a replacement
/// by shortcuts of different identities.
pub proof fn law_program_lists_each_shortcut_once(
    app: crate::timer_app::AppView,
    next: Seq<HotKey>,
    answers: Seq<Result<(), Seq<char>>>,
)
    requires
        one_of_each(app.known_active + app.uncertain),
        one_of_each(next),
        crate::transaction::replacement(
            app.known_active + app.uncertain,
            next,
            answers,
        ).requests.len() == answers.len(),
    ensures
        ({
            let course = crate::transaction::replacement(
                app.known_active + app.uncertain,
                next,
                answers,
            );
            let after = app.after_transaction(next, course.outcome);
            one_of_each(after.known_active + after.uncertain)
        }),
{
    let previous = app.known_active + app.uncertain;
    let course = crate::transaction::replacement(previous, next, answers);
    let after = app.after_transaction(next, course.outcome);
    law_outcome_is_truthful(Set::empty(), previous, next, answers);
    lemma_uncertain_one_of_each(previous, next, answers);
    if after.uncertain.len() == 0 {
        assert(after.known_active + after.uncertain =~= after.known_active);
        if after.known_active.len() == 0 {
            assert(after.known_active =~= after.uncertain);
        }
    } else {
        assert(after.known_active + after.uncertain =~= after.uncertain);
    }
}

/// The list of shortcuts to release at the end holds every identity that is
/// known to be registered or suspected to be.
proof fn lemma_release_list_is_complete(known: Seq<HotKey>, uncertain: Seq<HotKey>, id: u32)
    requires
        crate::transaction::has_id(known + uncertain, id),
    ensures
        crate::transaction::has_id(crate::timer_app::keys_to_release(known, uncertain), id),
    decreases uncertain.len(),
{
    if uncertain.len() == 0 {
        assert(known + uncertain =~= known);
    } else {
        let before = crate::timer_app::keys_to_release(known, uncertain.drop_last());
        lemma_has_id_split(known + uncertain, id);
        assert((known + uncertain).drop_last() =~= known + uncertain.drop_last());
        lemma_has_id_push(before, uncertain.last(), id);
        if crate::transaction::has_id(known + uncertain.drop_last(), id) {
            lemma_release_list_is_complete(known, uncertain.drop_last(), id);
        }
    }
}

/// When the program ends, every shortcut that it registered and whose release
/// the system confirms is released, and none is left where all are confirmed.
pub proof fn law_nothing_stays_registered_at_the_end(
    app: crate::timer_app::AppView,
    owned: Set<u32>,
    answers: Seq<Result<(), Seq<char>>>,
)
    requires
        owned.subset_of(ids(app.known_active + app.uncertain)),
        answers.len() == crate::timer_app::keys_to_release(app.known_active, app.uncertain).len(),
    ensures
        ({
            let keys = crate::timer_app::keys_to_release(app.known_active, app.uncertain);
            let requests = crate::transaction::each(Operation::Unregister, keys);
            let after = owned_after(owned, requests, answers);
            let refused = crate::transaction::failed(keys, answers);
            &&& after.subset_of(ids(refused))
            &&& refused.len() == 0 ==> after == Set::<u32>::empty()
        }),
{
    let keys = crate::timer_app::keys_to_release(app.known_active, app.uncertain);
    let requests = crate::transaction::each(Operation::Unregister, keys);
    let after = owned_after(owned, requests, answers);
    let refused = crate::transaction::failed(keys, answers);
    assert forall|id: u32| #[trigger] after.contains(id) implies ids(refused).contains(id) by {
        lemma_releases(owned, keys, answers, id);
        assert(ids(app.known_active + app.uncertain).contains(id));
        lemma_release_list_is_complete(app.known_active, app.uncertain, id);
    }
    if refused.len() == 0 {
        assert(after =~= Set::empty());
    }
}

} // verus!
