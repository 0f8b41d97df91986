//! What dropping overdue statuses does.

use crate::model::{ActionView, Fault, StatusView};
use crate::sequence::{leading, lemma_leading, lemma_leading_unique, without_each};
use crate::watch::{
    datable, deletions, expire_step, overdue, overdue_phrases, pending, StepView, WatchView,
};
use vstd::prelude::*;

verus! {

/// Dropping what is overdue ends in a fault exactly if ten seconds after some remembered
/// moment can no longer be written as a timestamp, and in no other fault. So while every
/// remembered moment is at least ten seconds before the end of time there is none.
pub proof fn law_expiry_fault(state: WatchView, now: i64)
    ensures
        expire_step(state, now).fault is Some <==> exists|i: int|
            0 <= i < state.user_checks.len() && (#[trigger] state.user_checks[i]).timestamp + 10000
                > i64::MAX,
        expire_step(state, now).fault is Some ==> expire_step(state, now).fault == Some(
            Fault::ClockOverflow,
        ),
        (forall|i: int|
            0 <= i < state.user_checks.len() ==> (#[trigger] state.user_checks[i]).timestamp
                <= i64::MAX - 10000) ==> expire_step(state, now).fault is None,
{
    let checks = state.user_checks;
    lemma_leading(checks, datable());
    let seen = leading(checks, datable());
    if seen < checks.len() {
        assert(checks[seen as int].timestamp + 10000 > i64::MAX);
    } else {
        assert forall|i: int| 0 <= i < checks.len() implies (#[trigger] checks[i]).timestamp + 10000
            <= i64::MAX by {
            assert(datable()(checks[i]));
        }
    }
}

/// With nothing remembered, nothing is dropped.
pub proof fn law_expiry_of_nothing(state: WatchView, now: i64)
    requires
        state.user_checks.len() == 0,
    ensures
        expire_step(state, now) == (StepView { state, actions: Seq::empty(), fault: None }),
{
    assert(state.user_checks == Seq::<StatusView>::empty());
    lemma_leading_unique(state.user_checks, datable(), 0);
    reveal(Seq::filter);
    let none = state.user_checks.take(0);
    assert(none.filter(overdue(now)) == Seq::<StatusView>::empty());
    assert(overdue_phrases(none, now) == Seq::<Seq<char>>::empty());
    assert(expire_step(state, now).state.user_checks == state.user_checks);
    assert(expire_step(state, now).actions == Seq::<ActionView>::empty());
}

/// One remembered status whose moment is more than ten seconds before `now` is dropped,
/// its phrase is deleted, and the list loses the first occurrence of the phrase and nothing
/// else. `before` and `after` are what stands around that occurrence.
pub proof fn law_overdue_status_goes(
    state: WatchView,
    status: StatusView,
    now: i64,
    before: Seq<Seq<char>>,
    after: Seq<Seq<char>>,
)
    requires
        state.user_checks == seq![status],
        status.timestamp + 10000 < now,
        state.phrases == before + seq![status.data] + after,
        !before.contains(status.data),
    ensures
        expire_step(state, now) == (StepView {
            state: WatchView {
                phrases: before + after,
                user_checks: Seq::empty(),
                ignored: state.ignored,
            },
            actions: seq![ActionView::Delete(status.data)],
            fault: None,
        }),
{
    lemma_one(state, status, now);
    let list = state.phrases;
    let at = before.len() as int;
    assert(list[at] == status.data);
    list.index_of_first_ensures(status.data);
    let found = list.index_of_first(status.data)->0;
    if found < at {
        assert(before[found] == status.data);
    }
    assert(list.remove(at) == before + after);
}

/// One remembered status whose moment is more than ten seconds before `now` is dropped and
/// its phrase deleted even if the list does not hold the phrase; the list then stays.
pub proof fn law_overdue_status_of_unlisted_phrase_goes(
    state: WatchView,
    status: StatusView,
    now: i64,
)
    requires
        state.user_checks == seq![status],
        status.timestamp + 10000 < now,
        !state.phrases.contains(status.data),
    ensures
        expire_step(state, now) == (StepView {
            state: WatchView {
                phrases: state.phrases,
                user_checks: Seq::empty(),
                ignored: state.ignored,
            },
            actions: seq![ActionView::Delete(status.data)],
            fault: None,
        }),
{
    lemma_one(state, status, now);
    state.phrases.index_of_first_ensures(status.data);
}

/// One remembered status whose moment is not more than ten seconds before `now` stays, and
/// nothing changes; if ten seconds after its moment cannot be written, that is a fault.
pub proof fn law_pending_status_is_kept(state: WatchView, status: StatusView, now: i64)
    requires
        state.user_checks == seq![status],
        status.timestamp + 10000 >= now,
    ensures
        expire_step(state, now) == (StepView {
            state,
            actions: Seq::empty(),
            fault: if status.timestamp + 10000 > i64::MAX {
                Some(Fault::ClockOverflow)
            } else {
                None
            },
        }),
{
    lemma_one(state, status, now);
}

/// Statuses are dealt with one after the other: with a fault among the first ones, that is
/// where it ends and the others stay untouched; without one, dropping from two lists of
/// statuses put together is dropping from the first and then, with the phrases that are
/// left, from the second.
pub proof fn law_expiry_of_joined_statuses(
    state: WatchView,
    first: Seq<StatusView>,
    second: Seq<StatusView>,
    now: i64,
)
    ensures
        ({
            let whole = expire_step(WatchView { user_checks: first + second, ..state }, now);
            let one = expire_step(WatchView { user_checks: first, ..state }, now);
            let two = expire_step(
                WatchView {
                    user_checks: second,
                    phrases: one.state.phrases,
                    ignored: state.ignored,
                },
                now,
            );
            whole == if one.fault is Some {
                StepView {
                    state: WatchView {
                        user_checks: one.state.user_checks + second,
                        ..one.state
                    },
                    actions: one.actions,
                    fault: one.fault,
                }
            } else {
                StepView {
                    state: WatchView {
                        user_checks: one.state.user_checks + two.state.user_checks,
                        phrases: two.state.phrases,
                        ignored: state.ignored,
                    },
                    actions: one.actions + two.actions,
                    fault: two.fault,
                }
            }
        }),
{
    let all = first + second;
    let m = leading(first, datable());
    let n = leading(second, datable());
    lemma_leading(first, datable());
    lemma_leading(second, datable());
    let whole = expire_step(WatchView { user_checks: all, ..state }, now);
    let one = expire_step(WatchView { user_checks: first, ..state }, now);
    if m < first.len() {
        assert forall|j: int| 0 <= j < m implies datable()(#[trigger] all[j]) by {
            assert(datable()(first[j]));
        }
        assert(all[m as int] == first[m as int]);
        lemma_leading_unique(all, datable(), m);
        assert(all.take(m as int) == first.take(m as int));
        assert(all.skip(m as int) == first.skip(m as int) + second);
        let kept = first.take(m as int).filter(pending(now));
        assert(kept + (first.skip(m as int) + second) == kept + first.skip(m as int) + second);
    } else {
        assert forall|j: int| 0 <= j < m + n implies datable()(#[trigger] all[j]) by {
            if j < m {
                assert(datable()(first[j]));
            } else {
                assert(datable()(second[j - m]));
            }
        }
        if n < second.len() {
            assert(all[m + n as int] == second[n as int]);
        }
        lemma_leading_unique(all, datable(), m + n);
        assert(first.take(m as int) == first);
        assert(first.skip(m as int) == Seq::<StatusView>::empty());
        let near = second.take(n as int);
        assert(all.take((m + n) as int) == first + near);
        assert(all.skip((m + n) as int) == second.skip(n as int));
        Seq::filter_distributes_over_add(first, near, pending(now));
        Seq::filter_distributes_over_add(first, near, overdue(now));
        let a = overdue_phrases(first, now);
        let b = overdue_phrases(near, now);
        assert(overdue_phrases(first + near, now) == a + b);
        lemma_without_joined(state.phrases, a, b);
        assert(deletions(a + b) == deletions(a) + deletions(b));
        let p = first.filter(pending(now));
        let q = near.filter(pending(now));
        let rest = second.skip(n as int);
        assert(p + q + rest == (p + Seq::<StatusView>::empty()) + (q + rest));
    }
}

/// What dropping does with one remembered status.
proof fn lemma_one(state: WatchView, status: StatusView, now: i64)
    requires
        state.user_checks == seq![status],
    ensures
        ({
            let step = expire_step(state, now);
            if status.timestamp + 10000 > i64::MAX {
                &&& step.fault == Some(Fault::ClockOverflow)
                &&& step.state == state
                &&& step.actions == Seq::<ActionView>::empty()
            } else if status.timestamp + 10000 < now {
                &&& step.fault is None
                &&& step.state.user_checks == Seq::<StatusView>::empty()
                &&& step.state.ignored == state.ignored
                &&& step.state.phrases == state.phrases.remove_value(status.data)
                &&& step.actions == seq![ActionView::Delete(status.data)]
            } else {
                &&& step.fault is None
                &&& step.state == state
                &&& step.actions == Seq::<ActionView>::empty()
            }
        }),
{
    reveal_with_fuel(Seq::filter, 2);
    reveal_with_fuel(without_each, 2);
    let checks = state.user_checks;
    assert(checks[0] == status);
    assert(checks.take(1) == checks);
    assert(checks.drop_last() == Seq::<StatusView>::empty());
    assert(checks.take(0) == Seq::<StatusView>::empty());
    assert(checks.skip(0) == checks);
    assert(checks.skip(1) == Seq::<StatusView>::empty());
    let step = expire_step(state, now);
    if status.timestamp + 10000 > i64::MAX {
        lemma_leading_unique(checks, datable(), 0);
        assert(overdue_phrases(checks.take(0), now) == Seq::<Seq<char>>::empty());
        assert(step.state.user_checks == checks);
        assert(step.actions == Seq::<ActionView>::empty());
    } else {
        lemma_leading_unique(checks, datable(), 1);
        if status.timestamp + 10000 < now {
            assert(checks.filter(overdue(now)) == checks);
            let gone = overdue_phrases(checks, now);
            assert(gone == seq![status.data]);
            assert(gone.drop_last() == Seq::<Seq<char>>::empty());
            assert(step.actions == seq![ActionView::Delete(status.data)]);
            assert(step.state.user_checks == Seq::<StatusView>::empty());
        } else {
            assert(overdue_phrases(checks, now) == Seq::<Seq<char>>::empty());
            assert(step.state.user_checks == checks);
            assert(step.actions == Seq::<ActionView>::empty());
        }
    }
}

proof fn lemma_without_joined(s: Seq<Seq<char>>, a: Seq<Seq<char>>, b: Seq<Seq<char>>)
    ensures
        without_each(s, a + b) == without_each(without_each(s, a), b),
    decreases b.len(),
{
    if b.len() == 0 {
        assert(a + b == a);
    } else {
        lemma_without_joined(s, a, b.drop_last());
        assert((a + b).drop_last() == a + b.drop_last());
    }
}

} // verus!
