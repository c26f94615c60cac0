//! What counting does to taps and to events, told by the taps' own numbers.

use vstd::prelude::*;

use crate::event::{
    PointerButtonEventView, PointerEventView, PointerInfo, PointerStateView, PointerType,
    PointerUpdateView, Position,
};
use crate::model::{countable, counted};
use crate::pointer::TapState;
use crate::tap_laws::lemma_first_where;
use crate::taps::{
    departed, down_of_pointer, drag_count, expiry_in_range, first_where, live, of_pointer,
    release_count, released, Nearness, Press,
};

verus! {

/// Whether a press of `pointer` at `position` and `time` is close enough to `tap`: within 12 pixels
/// for touch, 6 for a pen, and 2 for any other device.
pub open spec fn is_close(
    tap: TapState,
    pointer: PointerInfo,
    position: Position,
    near: Nearness,
) -> bool {
    let slop: u32 = if pointer.pointer_type == PointerType::Touch {
        12
    } else if pointer.pointer_type == PointerType::Pen {
        6
    } else {
        2
    };
    near(tap.position, position, slop)
}

/// Whether `tap` went up less than half a second before `time`.
pub open spec fn is_recent(tap: TapState, time: u64) -> bool {
    time - tap.up_time < 500_000_000
}

/// Whether half a second after `tap` went up is a representable time.
pub open spec fn can_expire(tap: TapState) -> bool {
    tap.up_time <= 0xFFFF_FFFF_FFFF_FFFF - 500_000_000
}

/// Whether `tap` is the first of `taps`, at the index `at`, that is close to the press and recent.
pub open spec fn is_repeated(press: Press, taps: Seq<TapState>, near: Nearness, at: int) -> bool {
    &&& 0 <= at < taps.len()
    &&& is_close(taps[at], press.pointer, press.position, near)
    &&& is_recent(taps[at], press.time)
    &&& forall|j: int|
        0 <= j < at ==> !(is_close(#[trigger] taps[j], press.pointer, press.position, near)
            && is_recent(taps[j], press.time))
}

/// Whether the press is not both close to any tap and soon enough after it.
pub open spec fn is_first_press(press: Press, taps: Seq<TapState>, near: Nearness) -> bool {
    forall|j: int|
        0 <= j < taps.len() ==> !(is_close(#[trigger] taps[j], press.pointer, press.position, near)
            && is_recent(taps[j], press.time))
}

/// Whether the first tap of the pointer is at the index `at`.
pub open spec fn is_first_of(taps: Seq<TapState>, pointer_id: Option<u64>, at: int) -> bool {
    &&& 0 <= at < taps.len()
    &&& taps[at].pointer_id == pointer_id
    &&& forall|j: int| 0 <= j < at ==> (#[trigger] taps[j]).pointer_id != pointer_id
}

/// Whether no tap is of the pointer.
pub open spec fn is_none_of(taps: Seq<TapState>, pointer_id: Option<u64>) -> bool {
    forall|j: int| 0 <= j < taps.len() ==> (#[trigger] taps[j]).pointer_id != pointer_id
}

/// Whether the first tap of the pointer that has not gone up is at the index `at`.
pub open spec fn is_first_down(taps: Seq<TapState>, pointer_id: Option<u64>, at: int) -> bool {
    &&& 0 <= at < taps.len()
    &&& taps[at].pointer_id == pointer_id && taps[at].up_time == taps[at].down_time
    &&& forall|j: int|
        0 <= j < at ==> !((#[trigger] taps[j]).pointer_id == pointer_id && taps[j].up_time
            == taps[j].down_time)
}

/// Whether every tap of the pointer has gone up.
pub open spec fn is_none_down(taps: Seq<TapState>, pointer_id: Option<u64>) -> bool {
    forall|j: int|
        0 <= j < taps.len() ==> !((#[trigger] taps[j]).pointer_id == pointer_id && taps[j].up_time
            == taps[j].down_time)
}

/// The tap that a press with the count `count` makes: of its pointer, where and when it went down,
/// and not gone up.
pub open spec fn fresh_tap(press: Press, count: u8) -> TapState {
    TapState {
        pointer_id: press.pointer.pointer_id,
        down_time: press.time,
        up_time: press.time,
        count,
        position: press.position,
    }
}

/// The taps that are down, or went up less than half a second before `time`, in order.
pub open spec fn still_of_use(taps: Seq<TapState>, time: u64) -> Seq<TapState> {
    taps.filter(|tap: TapState| tap.up_time == tap.down_time || time - tap.up_time < 500_000_000)
}

/// The searches find what they are for.
pub proof fn lemma_searches(press: Press, taps: Seq<TapState>, near: Nearness)
    ensures
        match first_where(taps, press.repeats(near), 0) {
            Some(i) => is_repeated(press, taps, near, i),
            None => is_first_press(press, taps, near),
        },
        match first_where(taps, of_pointer(press.pointer.pointer_id), 0) {
            Some(i) => is_first_of(taps, press.pointer.pointer_id, i),
            None => is_none_of(taps, press.pointer.pointer_id),
        },
{
    let repeats = press.repeats(near);
    let own = of_pointer(press.pointer.pointer_id);
    lemma_first_where(taps, repeats, 0);
    lemma_first_where(taps, own, 0);
    assert forall|j: int| 0 <= j < taps.len() implies repeats(#[trigger] taps[j]) == (is_close(
        taps[j],
        press.pointer,
        press.position,
        near,
    ) && is_recent(taps[j], press.time)) by {}
    assert forall|j: int| 0 <= j < taps.len() implies own(#[trigger] taps[j]) == (taps[j].pointer_id
        == press.pointer.pointer_id) by {}
}

/// A press counts one more than the first recent tap that it is close to, and one where there is no
/// such tap.
pub proof fn law_press_counts_from_the_tap_it_repeats(
    press: Press,
    taps: Seq<TapState>,
    near: Nearness,
    at: int,
)
    requires
        press.in_range(taps, near),
    ensures
        is_repeated(press, taps, near, at) ==> press.count(taps, near) == taps[at].count + 1,
        is_first_press(press, taps, near) ==> press.count(taps, near) == 1,
{
    lemma_searches(press, taps, near);
}

/// A press takes the place of the tap that it repeats, or else of the first tap of its pointer, or
/// else the place behind all others; then what is of no more use is forgotten.
pub proof fn law_press_takes_one_place(press: Press, taps: Seq<TapState>, near: Nearness, at: int)
    ensures
        ({
            let tap = fresh_tap(press, press.count(taps, near));
            let id = press.pointer.pointer_id;
            let after = press.after(taps, near);
            &&& is_repeated(press, taps, near, at) ==> after == still_of_use(
                taps.update(at, tap),
                press.time,
            )
            &&& is_first_press(press, taps, near) && is_first_of(taps, id, at) ==> after
                == still_of_use(taps.update(at, tap), press.time)
            &&& is_first_press(press, taps, near) && is_none_of(taps, id) ==> after == still_of_use(
                taps.push(tap),
                press.time,
            )
        }),
{
    lemma_searches(press, taps, near);
    assert(live(press.time) =~= (|tap: TapState|
        tap.up_time == tap.down_time || press.time - tap.up_time < 500_000_000));
}

/// What the search goes over has deadlines: each tap that the press is close to and that no
/// repeated tap comes before.
proof fn lemma_search_reaches(press: Press, taps: Seq<TapState>, near: Nearness, from: int)
    requires
        0 <= from <= taps.len(),
    ensures
        press.search_in_range(taps, near, from) <==> forall|i: int|
            #![trigger taps[i]]
            from <= i < taps.len() && is_close(taps[i], press.pointer, press.position, near) && (
            forall|j: int|
                from <= j < i ==> !(is_close(
                    #[trigger] taps[j],
                    press.pointer,
                    press.position,
                    near,
                ) && is_recent(taps[j], press.time))) ==> can_expire(taps[i]),
    decreases taps.len() - from,
{
    if from < taps.len() {
        lemma_search_reaches(press, taps, near, from + 1);
        let first = taps[from];
        if press.search_in_range(taps, near, from) {
            if press.repeats(near)(first) {
                assert(is_close(first, press.pointer, press.position, near) && is_recent(
                    first,
                    press.time,
                ));
            }
        } else if press.lands_on(first, near) && !first.has_deadline() {
            assert(is_close(taps[from], press.pointer, press.position, near) && !can_expire(
                taps[from],
            ));
        } else {
            assert(!press.repeats(near)(first));
            assert(!press.search_in_range(taps, near, from + 1));
            let i = choose|i: int|
                #![trigger taps[i]]
                from + 1 <= i < taps.len() && is_close(
                    taps[i],
                    press.pointer,
                    press.position,
                    near,
                ) && (forall|j: int|
                    from + 1 <= j < i ==> !(is_close(
                        #[trigger] taps[j],
                        press.pointer,
                        press.position,
                        near,
                    ) && is_recent(taps[j], press.time))) && !can_expire(taps[i]);
            assert(!(is_close(first, press.pointer, press.position, near) && is_recent(
                first,
                press.time,
            )));
            assert(taps[i] == taps[i]);
        }
    }
}

/// A press can be counted exactly if it repeats no tap that counts 255 already, and half a second
/// after it went up is a representable time for each tap whose age is looked at: those close to
/// the press that come before or at the one it repeats, and those that have gone up and keep their
/// place.
pub proof fn law_press_can_be_counted(press: Press, taps: Seq<TapState>, near: Nearness)
    ensures
        press.in_range(taps, near) <==> {
            &&& forall|i: int|
                #![trigger taps[i]]
                0 <= i < taps.len() && is_close(taps[i], press.pointer, press.position, near) && (
                forall|j: int|
                    0 <= j < i ==> !(is_close(
                        #[trigger] taps[j],
                        press.pointer,
                        press.position,
                        near,
                    ) && is_recent(taps[j], press.time))) ==> can_expire(taps[i])
            &&& forall|i: int|
                #![trigger taps[i]]
                is_repeated(press, taps, near, i) ==> taps[i].count < 255
            &&& forall|i: int|
                #![trigger taps[i]]
                0 <= i < taps.len() && !is_repeated(press, taps, near, i) && !(is_first_press(
                    press,
                    taps,
                    near,
                ) && is_first_of(taps, press.pointer.pointer_id, i)) && taps[i].up_time
                    != taps[i].down_time ==> can_expire(taps[i])
        },
{
    lemma_searches(press, taps, near);
    lemma_search_reaches(press, taps, near, 0);
    let recorded = press.recorded(taps, near);
    let id = press.pointer.pointer_id;
    let slot = match first_where(taps, press.repeats(near), 0) {
        Some(i) => i,
        None => match first_where(taps, of_pointer(id), 0) {
            Some(i) => i,
            None => taps.len() as int,
        },
    };
    assert(recorded[slot].is_down());
    assert(forall|i: int|
        0 <= i < taps.len() && i != slot ==> #[trigger] recorded[i] == #[trigger] taps[i]);
    assert(forall|i: int|
        #![trigger taps[i]]
        0 <= i < taps.len() ==> ((is_repeated(press, taps, near, i) || is_first_press(
            press,
            taps,
            near,
        ) && is_first_of(taps, id, i)) <==> i == slot));
    let others = forall|i: int|
        #![trigger taps[i]]
        0 <= i < taps.len() && i != slot && taps[i].up_time != taps[i].down_time ==> can_expire(
            taps[i],
        );
    if others {
        assert forall|i: int| 0 <= i < recorded.len() && !(#[trigger] recorded[i]).is_down() implies
            recorded[i].has_deadline() by {
            assert(i != slot && recorded[i] == taps[i]);
        }
    }
    if expiry_in_range(recorded) {
        assert forall|i: int|
            #![trigger taps[i]]
            0 <= i < taps.len() && i != slot && taps[i].up_time
                != taps[i].down_time implies can_expire(taps[i]) by {
            assert(recorded[i] == taps[i]);
        }
    }
}

/// The release of a pointer ends the first tap of that pointer, has its count, and changes nothing
/// else.
pub proof fn law_release_ends_the_first_tap(
    taps: Seq<TapState>,
    pointer_id: Option<u64>,
    time: u64,
    at: int,
)
    ensures
        is_first_of(taps, pointer_id, at) ==> {
            &&& release_count(taps, pointer_id) == Some(taps[at].count)
            &&& released(taps, pointer_id, time).len() == taps.len()
            &&& released(taps, pointer_id, time)[at] == (TapState {
                pointer_id,
                down_time: taps[at].down_time,
                up_time: time,
                count: taps[at].count,
                position: taps[at].position,
            })
            &&& forall|j: int|
                0 <= j < taps.len() && j != at ==> #[trigger] released(taps, pointer_id, time)[j]
                    == taps[j]
        },
        is_none_of(taps, pointer_id) ==> release_count(taps, pointer_id) is None && released(
            taps,
            pointer_id,
            time,
        ) == taps,
{
    let own = of_pointer(pointer_id);
    lemma_first_where(taps, own, 0);
    assert forall|j: int| 0 <= j < taps.len() implies own(#[trigger] taps[j]) == (taps[j].pointer_id
        == pointer_id) by {}
}

/// The motion of a pointer has the count of its first tap that is down, if there is one.
pub proof fn law_drag_has_count_of_the_first_down(
    taps: Seq<TapState>,
    pointer_id: Option<u64>,
    at: int,
)
    ensures
        is_first_down(taps, pointer_id, at) ==> drag_count(taps, pointer_id) == Some(
            taps[at].count,
        ),
        is_none_down(taps, pointer_id) ==> drag_count(taps, pointer_id) is None,
{
    let down = down_of_pointer(pointer_id);
    lemma_first_where(taps, down, 0);
    assert forall|j: int| 0 <= j < taps.len() implies down(#[trigger] taps[j]) == (
    taps[j].pointer_id == pointer_id && taps[j].up_time == taps[j].down_time) by {}
}

/// When a pointer departs, its own taps are kept in order, and no others.
pub proof fn law_departure_keeps_own_taps(taps: Seq<TapState>, pointer_id: Option<u64>)
    ensures
        departed(taps, pointer_id) == taps.filter(|tap: TapState| tap.pointer_id == pointer_id),
        (forall|i: int| 0 <= i < taps.len() ==> (#[trigger] taps[i]).pointer_id == pointer_id)
            ==> departed(taps, pointer_id) == taps,
    decreases taps.len(),
{
    assert(of_pointer(pointer_id) =~= (|tap: TapState| tap.pointer_id == pointer_id));
    reveal(Seq::filter);
    if taps.len() > 0 {
        let earlier = taps.drop_last();
        law_departure_keeps_own_taps(earlier, pointer_id);
        if forall|i: int| 0 <= i < taps.len() ==> (#[trigger] taps[i]).pointer_id == pointer_id {
            assert forall|i: int| 0 <= i < earlier.len() implies (#[trigger] earlier[i]).pointer_id
                == pointer_id by {
                assert(earlier[i] == taps[i]);
            }
            assert(earlier.push(taps.last()) =~= taps);
            assert(of_pointer(pointer_id)(taps.last()));
        }
    }
}

/// Whether two states differ in nothing but their counts.
pub open spec fn same_but_count(a: PointerStateView, b: PointerStateView) -> bool {
    &&& a.time == b.time
    &&& a.position == b.position
    &&& a.buttons == b.buttons
    &&& a.modifiers == b.modifiers
    &&& a.pressure == b.pressure
    &&& a.scale_factor == b.scale_factor
}

/// Whether two sequences of states differ in nothing but the states' counts.
pub open spec fn all_same_but_count(
    a: Seq<PointerStateView>,
    b: Seq<PointerStateView>,
) -> bool {
    &&& a.len() == b.len()
    &&& forall|i: int| 0 <= i < a.len() ==> same_but_count(#[trigger] a[i], b[i])
}

/// Whether two button events differ in nothing but their counts.
pub open spec fn same_button_event(a: PointerButtonEventView, b: PointerButtonEventView) -> bool {
    a.button == b.button && a.pointer == b.pointer && same_but_count(a.state, b.state)
}

/// Counting leaves all of an event but its counts as it was, and leaves an event without a count
/// alone.
pub proof fn law_counting_changes_only_counts(
    taps: Seq<TapState>,
    event: PointerEventView,
    near: Nearness,
)
    ensures
        match (event, counted(taps, event, near).event) {
            (PointerEventView::Down(before), PointerEventView::Down(after)) => same_button_event(
                before,
                after,
            ),
            (PointerEventView::Up(before), PointerEventView::Up(after)) => same_button_event(
                before,
                after,
            ),
            (PointerEventView::Move(before), PointerEventView::Move(after)) => {
                &&& before.pointer == after.pointer
                &&& same_but_count(before.current, after.current)
                &&& all_same_but_count(before.coalesced, after.coalesced)
                &&& all_same_but_count(before.predicted, after.predicted)
            },
            (PointerEventView::Cancel(before), PointerEventView::Cancel(after)) => before == after,
            (PointerEventView::Enter(before), PointerEventView::Enter(after)) => before == after,
            (PointerEventView::Leave(before), PointerEventView::Leave(after)) => before == after,
            (PointerEventView::Scroll(before), PointerEventView::Scroll(after)) => before == after,
            _ => false,
        },
{
}

/// The press that an event reports: of its pointer, where and when it happens.
pub open spec fn as_press(event: PointerButtonEventView) -> Press {
    Press {
        pointer: event.pointer,
        position: event.state.position,
        time: event.state.time,
    }
}

/// A press event has one more than the count of the tap at `at`, if it repeats that, and the count
/// one if it repeats nothing; its tap is down with that count where the place of it is.
pub proof fn law_press_event_is_counted(
    taps: Seq<TapState>,
    event: PointerButtonEventView,
    near: Nearness,
    at: int,
)
    requires
        countable(taps, PointerEventView::Down(event), near),
    ensures
        ({
            let press = as_press(event);
            let id = event.pointer.pointer_id;
            let result = counted(taps, PointerEventView::Down(event), near);
            &&& result.event matches PointerEventView::Down(after) && {
                let tap = fresh_tap(press, after.state.count);
                let time = event.state.time;
                &&& is_repeated(press, taps, near, at) ==> {
                    &&& after.state.count == taps[at].count + 1
                    &&& result.taps == still_of_use(taps.update(at, tap), time)
                }
                &&& is_first_press(press, taps, near) ==> {
                    &&& after.state.count == 1
                    &&& is_first_of(taps, id, at) ==> result.taps == still_of_use(
                        taps.update(at, tap),
                        time,
                    )
                    &&& is_none_of(taps, id) ==> result.taps == still_of_use(taps.push(tap), time)
                }
            }
        }),
{
    law_press_counts_from_the_tap_it_repeats(as_press(event), taps, near, at);
    law_press_takes_one_place(as_press(event), taps, near, at);
}

/// A release event has the count of the first tap of its pointer, which is up from then on; without
/// such a tap it keeps the count it had.
pub proof fn law_release_event_is_counted(
    taps: Seq<TapState>,
    event: PointerButtonEventView,
    near: Nearness,
    at: int,
)
    ensures
        ({
            let id = event.pointer.pointer_id;
            let result = counted(taps, PointerEventView::Up(event), near);
            &&& result.event matches PointerEventView::Up(after) && {
                &&& is_first_of(taps, id, at) ==> {
                    &&& after.state.count == taps[at].count
                    &&& result.taps == taps.update(
                        at,
                        TapState { up_time: event.state.time, ..taps[at] },
                    )
                }
                &&& is_none_of(taps, id) ==> after.state.count == event.state.count && result.taps
                    == taps
            }
        }),
{
    law_release_ends_the_first_tap(taps, event.pointer.pointer_id, event.state.time, at);
}

/// A motion of a pointer whose tap is down has the count of that tap in every one of its states;
/// without such a tap its states keep the counts they had. The taps stay as they are.
pub proof fn law_motion_is_counted(
    taps: Seq<TapState>,
    update: PointerUpdateView,
    near: Nearness,
    at: int,
)
    ensures
        ({
            let id = update.pointer.pointer_id;
            let result = counted(taps, PointerEventView::Move(update), near);
            &&& result.taps == taps
            &&& result.event matches PointerEventView::Move(after) && {
                &&& is_first_down(taps, id, at) ==> {
                    &&& after.current.count == taps[at].count
                    &&& forall|i: int|
                        0 <= i < after.coalesced.len() ==> (#[trigger] after.coalesced[i]).count
                            == taps[at].count
                    &&& forall|i: int|
                        0 <= i < after.predicted.len() ==> (#[trigger] after.predicted[i]).count
                            == taps[at].count
                }
                &&& is_none_down(taps, id) ==> after == update
            }
        }),
{
    law_drag_has_count_of_the_first_down(taps, update.pointer.pointer_id, at);
}

/// Of a pointer that leaves or is cancelled, the taps are kept, and those of the others are not; a
/// pointer that enters or scrolls leaves the taps as they are.
pub proof fn law_other_events_and_taps(
    taps: Seq<TapState>,
    pointer: PointerInfo,
    event: PointerEventView,
    near: Nearness,
)
    ensures
        ({
            let own = taps.filter(|tap: TapState| tap.pointer_id == pointer.pointer_id);
            &&& counted(taps, PointerEventView::Leave(pointer), near).taps == own
            &&& counted(taps, PointerEventView::Cancel(pointer), near).taps == own
            &&& event is Enter || event is Scroll ==> counted(taps, event, near).taps == taps
        }),
{
    law_departure_keeps_own_taps(taps, pointer.pointer_id);
}

} // verus!
