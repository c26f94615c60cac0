//! What holds of click and tap counting.

use vstd::prelude::*;

use crate::pointer::{TapState, TAP_TIMEOUT};
use crate::taps::{
    departed, down_of_pointer, drag_count, first_where, live, of_pointer, release_count, released,
    Nearness, Press,
};

verus! {

/// Whether the taps are possible in a window whose last message came at `time`: none went up before
/// it went down or later than that, and each counts at least itself.
pub open spec fn taps_possible(taps: Seq<TapState>, time: u64) -> bool {
    forall|i: int|
        0 <= i < taps.len() ==> (#[trigger] taps[i]).down_time <= taps[i].up_time <= time
            && taps[i].count >= 1
}

/// Whether no two taps are of the same pointer.
pub open spec fn pointers_distinct(taps: Seq<TapState>) -> bool {
    forall|i: int, j: int|
        0 <= i < j < taps.len() ==> (#[trigger] taps[i]).pointer_id != (
        #[trigger] taps[j]).pointer_id
}

/// What the search for the first tap finds.
pub proof fn lemma_first_where(taps: Seq<TapState>, p: spec_fn(TapState) -> bool, from: int)
    requires
        0 <= from,
    ensures
        match first_where(taps, p, from) {
            Some(i) => from <= i < taps.len() && p(taps[i]) && forall|j: int|
                from <= j < i ==> !p(#[trigger] taps[j]),
            None => forall|j: int| from <= j < taps.len() ==> !p(#[trigger] taps[j]),
        },
    decreases taps.len() - from,
{
    if from < taps.len() {
        lemma_first_where(taps, p, from + 1);
    }
}

/// Where the search for the first tap ends.
proof fn lemma_first_is(taps: Seq<TapState>, p: spec_fn(TapState) -> bool, i: int)
    requires
        0 <= i < taps.len(),
        p(taps[i]),
        forall|j: int| 0 <= j < i ==> !p(#[trigger] taps[j]),
    ensures
        first_where(taps, p, 0) == Some(i),
{
    lemma_first_where(taps, p, 0);
}

/// What stands in a filtered sequence stood in the sequence, in the same order.
pub proof fn lemma_filter_origin(
    taps: Seq<TapState>,
    p: spec_fn(TapState) -> bool,
) -> (origin: Seq<int>)
    ensures
        origin.len() == taps.filter(p).len(),
        forall|i: int|
            0 <= i < origin.len() ==> 0 <= #[trigger] origin[i] < taps.len() && taps.filter(p)[i]
                == taps[origin[i]] && p(taps[origin[i]]),
        forall|i: int, j: int|
            0 <= i < j < origin.len() ==> #[trigger] origin[i] < #[trigger] origin[j],
        forall|k: int|
            0 <= k < taps.len() && p(#[trigger] taps[k]) ==> exists|i: int|
                0 <= i < origin.len() && #[trigger] origin[i] == k,
    decreases taps.len(),
{
    reveal(Seq::filter);
    if taps.len() == 0 {
        seq![]
    } else {
        let earlier = taps.drop_last();
        let before = lemma_filter_origin(earlier, p);
        let last = taps.len() - 1;
        if p(taps[last]) {
            let origin = before.push(last);
            assert forall|k: int|
                0 <= k < taps.len() && p(#[trigger] taps[k]) implies exists|i: int|
                0 <= i < origin.len() && #[trigger] origin[i] == k by {
                if k == last {
                    assert(origin[before.len() as int] == k);
                } else {
                    assert(p(earlier[k]));
                    let i = choose|i: int| 0 <= i < before.len() && #[trigger] before[i] == k;
                    assert(origin[i] == k);
                }
            }
            origin
        } else {
            assert forall|k: int|
                0 <= k < taps.len() && p(#[trigger] taps[k]) implies exists|i: int|
                0 <= i < before.len() && #[trigger] before[i] == k by {
                assert(p(earlier[k]));
            }
            before
        }
    }
}

/// Each press counts as one, or as one more than the tap it repeats; what it repeats, it landed on
/// within the timeout.
pub proof fn law_press_count(press: Press, taps: Seq<TapState>, near: Nearness)
    requires
        press.in_range(taps, near),
    ensures
        press.count(taps, near) == 1 || exists|i: int|
            0 <= i < taps.len() && press.lands_on(#[trigger] taps[i], near) && press.time
                < taps[i].up_time + TAP_TIMEOUT && press.count(taps, near) == taps[i].count + 1,
        (forall|i: int|
            0 <= i < taps.len() ==> !(press.lands_on(#[trigger] taps[i], near) && press.time
                < taps[i].up_time + TAP_TIMEOUT)) ==> press.count(taps, near) == 1,
{
    lemma_first_where(taps, press.repeats(near), 0);
}

/// Whether what the press repeats, if it repeats anything, is a tap of its own pointer.
pub open spec fn repeats_itself(press: Press, taps: Seq<TapState>, near: Nearness) -> bool {
    first_where(taps, press.repeats(near), 0) matches Some(i) ==> taps[i].pointer_is(
        press.pointer.pointer_id,
    )
}

/// Where a press is recorded.
pub proof fn lemma_recorded(press: Press, taps: Seq<TapState>, near: Nearness) -> (slot: int)
    ensures
        ({
            let recorded = press.recorded(taps, near);
            &&& 0 <= slot < recorded.len()
            &&& slot <= taps.len() <= recorded.len() <= taps.len() + 1
            &&& recorded.len() > taps.len() ==> slot == taps.len()
            &&& recorded[slot] == press.tap(press.count(taps, near))
            &&& forall|i: int|
                0 <= i < recorded.len() && i != slot ==> i < taps.len() && #[trigger] recorded[i]
                    == taps[i]
            &&& repeats_itself(press, taps, near) && slot < taps.len() ==> taps[slot].pointer_is(
                press.pointer.pointer_id,
            )
            &&& slot == taps.len() ==> forall|i: int|
                0 <= i < taps.len() ==> !(#[trigger] taps[i]).pointer_is(press.pointer.pointer_id)
        }),
{
    lemma_first_where(taps, press.repeats(near), 0);
    lemma_first_where(taps, of_pointer(press.pointer.pointer_id), 0);
    match first_where(taps, press.repeats(near), 0) {
        Some(i) => i,
        None => match first_where(taps, of_pointer(press.pointer.pointer_id), 0) {
            Some(i) => i,
            None => {
                let id = press.pointer.pointer_id;
                assert forall|i: int| 0 <= i < taps.len() implies !(#[trigger] taps[i]).pointer_is(
                    id,
                ) by {
                    assert(!of_pointer(id)(taps[i]));
                }
                taps.len() as int
            },
        },
    }
}

/// After a press, its tap is known, everything else that is known was known before, and whatever is
/// known is down or can still be repeated.
pub proof fn law_press_is_recorded(press: Press, taps: Seq<TapState>, near: Nearness)
    ensures
        ({
            let after = press.after(taps, near);
            let tap = press.tap(press.count(taps, near));
            &&& exists|i: int| 0 <= i < after.len() && #[trigger] after[i] == tap
            &&& forall|i: int|
                0 <= i < after.len() ==> #[trigger] after[i] == tap || taps.contains(after[i])
            &&& forall|i: int|
                0 <= i < after.len() ==> (#[trigger] after[i]).is_down() || after[i].valid_at(
                    press.time,
                )
        }),
{
    let recorded = press.recorded(taps, near);
    let after = press.after(taps, near);
    let tap = press.tap(press.count(taps, near));
    let slot = lemma_recorded(press, taps, near);
    let origin = lemma_filter_origin(recorded, live(press.time));
    assert(live(press.time)(recorded[slot]));
    let at = choose|i: int| 0 <= i < origin.len() && #[trigger] origin[i] == slot;
    assert(after[at] == tap);
    assert forall|i: int| 0 <= i < after.len() implies #[trigger] after[i] == tap || taps.contains(
        after[i],
    ) by {
        assert(after[i] == recorded[origin[i]]);
        if origin[i] != slot {
            assert(taps[origin[i]] == after[i]);
        }
    }
    assert forall|i: int| 0 <= i < after.len() implies (#[trigger] after[i]).is_down()
        || after[i].valid_at(press.time) by {
        assert(live(press.time)(recorded[origin[i]]));
    }
}

/// A press keeps the taps possible, if time does not run backwards.
pub proof fn law_press_keeps_taps_possible(
    press: Press,
    taps: Seq<TapState>,
    near: Nearness,
    time: u64,
)
    requires
        taps_possible(taps, time),
        time <= press.time,
        press.in_range(taps, near),
    ensures
        taps_possible(press.after(taps, near), press.time),
{
    let recorded = press.recorded(taps, near);
    let after = press.after(taps, near);
    let slot = lemma_recorded(press, taps, near);
    lemma_first_where(taps, press.repeats(near), 0);
    let origin = lemma_filter_origin(recorded, live(press.time));
    assert forall|i: int| 0 <= i < after.len() implies (#[trigger] after[i]).down_time
        <= after[i].up_time <= press.time && after[i].count >= 1 by {
        let k = origin[i];
        assert(after[i] == recorded[k]);
        if k != slot {
            assert(recorded[k] == taps[k]);
        }
    }
}

/// A release keeps the taps possible, if time does not run backwards.
pub proof fn law_release_keeps_taps_possible(
    taps: Seq<TapState>,
    pointer_id: Option<u64>,
    time: u64,
    now: u64,
)
    requires
        taps_possible(taps, time),
        time <= now,
    ensures
        taps_possible(released(taps, pointer_id, now), now),
{
    lemma_first_where(taps, of_pointer(pointer_id), 0);
    let after = released(taps, pointer_id, now);
    assert forall|i: int| 0 <= i < after.len() implies (#[trigger] after[i]).down_time
        <= after[i].up_time <= now && after[i].count >= 1 by {
        assert(taps[i].down_time <= taps[i].up_time <= time);
    }
}

/// A departure keeps the taps possible, and keeps none but those of the departed pointer.
pub proof fn law_departure_keeps_taps_possible(
    taps: Seq<TapState>,
    pointer_id: Option<u64>,
    time: u64,
)
    requires
        taps_possible(taps, time),
    ensures
        taps_possible(departed(taps, pointer_id), time),
        forall|i: int|
            0 <= i < departed(taps, pointer_id).len() ==> (#[trigger] departed(
                taps,
                pointer_id,
            )[i]).pointer_is(pointer_id),
{
    let after = departed(taps, pointer_id);
    let origin = lemma_filter_origin(taps, of_pointer(pointer_id));
    assert forall|i: int| 0 <= i < after.len() implies (#[trigger] after[i]).down_time
        <= after[i].up_time <= time && after[i].count >= 1 && after[i].pointer_is(pointer_id) by {
        assert(after[i] == taps[origin[i]]);
        assert(of_pointer(pointer_id)(taps[origin[i]]));
    }
}

/// A pointer has at most one tap as long as no press repeats the tap of another pointer.
pub proof fn law_press_keeps_pointers_distinct(press: Press, taps: Seq<TapState>, near: Nearness)
    requires
        pointers_distinct(taps),
        repeats_itself(press, taps, near),
    ensures
        pointers_distinct(press.after(taps, near)),
{
    let recorded = press.recorded(taps, near);
    let after = press.after(taps, near);
    let slot = lemma_recorded(press, taps, near);
    let origin = lemma_filter_origin(recorded, live(press.time));
    assert forall|i: int, j: int| 0 <= i < j < after.len() implies (#[trigger] after[i]).pointer_id
        != (#[trigger] after[j]).pointer_id by {
        let (a, b) = (origin[i], origin[j]);
        assert(a < b);
        assert(after[i] == recorded[a] && after[j] == recorded[b]);
        if a != slot {
            assert(recorded[a] == taps[a]);
        }
        if b != slot {
            assert(recorded[b] == taps[b]);
        }
        if slot < taps.len() {
            assert(taps[slot].pointer_is(press.pointer.pointer_id));
            assert(taps[a].pointer_id != taps[b].pointer_id);
        } else if a != slot {
            assert(!taps[a].pointer_is(press.pointer.pointer_id));
        }
    }
}

/// A release keeps the pointers of the taps as they are.
pub proof fn law_release_keeps_pointers(taps: Seq<TapState>, pointer_id: Option<u64>, time: u64)
    ensures
        released(taps, pointer_id, time).len() == taps.len(),
        forall|i: int|
            0 <= i < taps.len() ==> (#[trigger] released(taps, pointer_id, time)[i]).pointer_id
                == taps[i].pointer_id,
{
    lemma_first_where(taps, of_pointer(pointer_id), 0);
}

/// Where the tap of a press stands afterwards, if its pointer has no other.
proof fn lemma_only_tap(press: Press, taps: Seq<TapState>, near: Nearness) -> (at: int)
    requires
        pointers_distinct(taps),
        repeats_itself(press, taps, near),
    ensures
        0 <= at < press.after(taps, near).len(),
        press.after(taps, near)[at] == press.tap(press.count(taps, near)),
        forall|i: int|
            0 <= i < press.after(taps, near).len() && i != at ==> !(#[trigger] press.after(
                taps,
                near,
            )[i]).pointer_is(press.pointer.pointer_id),
{
    let after = press.after(taps, near);
    let id = press.pointer.pointer_id;
    law_press_is_recorded(press, taps, near);
    law_press_keeps_pointers_distinct(press, taps, near);
    let at = choose|i: int|
        0 <= i < after.len() && #[trigger] after[i] == press.tap(press.count(taps, near));
    assert forall|i: int| 0 <= i < after.len() && i != at implies !(#[trigger] after[i]).pointer_is(
        id,
    ) by {
        assert(after[at].pointer_id == id);
    }
    at
}

/// The release that follows a press has the count of the press, and so has every motion between the
/// two.
///
/// This needs the press not to have repeated the tap of another pointer, and the pointer not to
/// have several taps.
pub proof fn law_release_has_count_of_press(press: Press, taps: Seq<TapState>, near: Nearness)
    requires
        pointers_distinct(taps),
        repeats_itself(press, taps, near),
    ensures
        ({
            let after = press.after(taps, near);
            let id = press.pointer.pointer_id;
            &&& release_count(after, id) == Some(press.count(taps, near))
            &&& drag_count(after, id) == Some(press.count(taps, near))
        }),
{
    let after = press.after(taps, near);
    let id = press.pointer.pointer_id;
    let at = lemma_only_tap(press, taps, near);
    assert forall|j: int| 0 <= j < at implies !of_pointer(id)(#[trigger] after[j]) by {
        assert(!after[j].pointer_is(id));
    }
    assert forall|j: int| 0 <= j < at implies !down_of_pointer(id)(#[trigger] after[j]) by {
        assert(!after[j].pointer_is(id));
    }
    lemma_first_is(after, of_pointer(id), at);
    lemma_first_is(after, down_of_pointer(id), at);
}

/// A press, its release and a second press that lands on the first within the timeout after the
/// release: the second counts one more than the first.
///
/// This needs the pointer of the first press to have no other tap, and the second press to repeat
/// no tap of another pointer.
pub proof fn law_repeated_press_counts_up(
    first: Press,
    taps: Seq<TapState>,
    near: Nearness,
    up_time: u64,
    second: Press,
)
    requires
        pointers_distinct(taps),
        repeats_itself(first, taps, near),
        ({
            let between = released(first.after(taps, near), first.pointer.pointer_id, up_time);
            &&& second.lands_on(first.tap(first.count(taps, near)), near)
            &&& second.time < up_time + TAP_TIMEOUT
            &&& second.in_range(between, near)
            &&& forall|i: int|
                0 <= i < between.len() && second.repeats(near)(#[trigger] between[i])
                    ==> between[i].pointer_is(first.pointer.pointer_id)
        }),
    ensures
        ({
            let between = released(first.after(taps, near), first.pointer.pointer_id, up_time);
            second.count(between, near) == first.count(taps, near) + 1
        }),
{
    let after = first.after(taps, near);
    let id = first.pointer.pointer_id;
    let between = released(after, id, up_time);
    let at = lemma_only_tap(first, taps, near);
    assert forall|j: int| 0 <= j < at implies !of_pointer(id)(#[trigger] after[j]) by {
        assert(!after[j].pointer_is(id));
    }
    lemma_first_is(after, of_pointer(id), at);
    assert(between[at] == (TapState { up_time, ..after[at] }));
    assert(second.repeats(near)(between[at]));
    assert forall|j: int| 0 <= j < at implies !second.repeats(near)(#[trigger] between[j]) by {
        assert(between[j] == after[j]);
        assert(!after[j].pointer_is(id));
    }
    lemma_first_is(between, second.repeats(near), at);
}

/// A press can be counted whenever time does not run backwards, the press itself will have a
/// representable deadline, and no tap has been repeated as often as can be counted.
pub proof fn law_press_in_range(press: Press, taps: Seq<TapState>, near: Nearness, time: u64)
    requires
        taps_possible(taps, time),
        time <= press.time,
        press.time <= u64::MAX - TAP_TIMEOUT,
        forall|i: int| 0 <= i < taps.len() ==> (#[trigger] taps[i]).count < u8::MAX,
    ensures
        press.in_range(taps, near),
{
    let slot = lemma_recorded(press, taps, near);
    lemma_first_where(taps, press.repeats(near), 0);
    lemma_search_in_range(press, taps, near, time, 0);
    let recorded = press.recorded(taps, near);
    assert forall|i: int| 0 <= i < recorded.len() && !(#[trigger] recorded[i]).is_down() implies
        recorded[i].has_deadline() by {
        if i != slot {
            assert(recorded[i] == taps[i]);
        }
    }
}

/// The search for the repeated tap stays within the range of time.
pub proof fn lemma_search_in_range(
    press: Press,
    taps: Seq<TapState>,
    near: Nearness,
    time: u64,
    from: int,
)
    requires
        0 <= from,
        taps_possible(taps, time),
        time <= u64::MAX - TAP_TIMEOUT,
    ensures
        press.search_in_range(taps, near, from),
    decreases taps.len() - from,
{
    if from < taps.len() {
        assert(taps[from].up_time <= time);
        lemma_search_in_range(press, taps, near, time, from + 1);
    }
}

} // verus!
