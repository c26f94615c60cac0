//! The list of recent taps, from which every pointer event gets its click or tap count.

use vstd::prelude::*;

use crate::event::{PointerInfo, Position};
use crate::pointer::{slop, TapState, TAP_TIMEOUT};

verus! {

/// The test whether a point lies within a slop of an anchor, as a mathematical function.
pub type Nearness = spec_fn(Position, Position, u32) -> bool;

/// The mathematical function that `near` computes.
pub open spec fn nearness<F: Fn(Position, Position, u32) -> bool>(near: &F) -> Nearness {
    |anchor: Position, point: Position, slop: u32| call_ensures(near, (anchor, point, slop), true)
}

/// Whether `near` accepts all arguments and always answers the same to the same ones.
pub open spec fn is_function<F: Fn(Position, Position, u32) -> bool>(near: &F) -> bool {
    &&& forall|anchor: Position, point: Position, slop: u32|
        call_requires(near, (anchor, point, slop))
    &&& forall|anchor: Position, point: Position, slop: u32|
        !(call_ensures(near, (anchor, point, slop), true) && call_ensures(
            near,
            (anchor, point, slop),
            false,
        ))
}

/// The first index from `from` on whose tap satisfies `p`.
pub open spec fn first_where(
    taps: Seq<TapState>,
    p: spec_fn(TapState) -> bool,
    from: int,
) -> Option<int>
    decreases taps.len() - from,
{
    if from >= taps.len() {
        None
    } else if p(taps[from]) {
        Some(from)
    } else {
        first_where(taps, p, from + 1)
    }
}

/// The taps of one pointer.
pub open spec fn of_pointer(pointer_id: Option<u64>) -> spec_fn(TapState) -> bool {
    |tap: TapState| tap.pointer_is(pointer_id)
}

/// The taps of one pointer that have not gone up.
pub open spec fn down_of_pointer(pointer_id: Option<u64>) -> spec_fn(TapState) -> bool {
    |tap: TapState| tap.pointer_is(pointer_id) && tap.is_down()
}

/// The taps that are still worth keeping at `time`.
pub open spec fn live(time: u64) -> spec_fn(TapState) -> bool {
    |tap: TapState| tap.is_down() || tap.valid_at(time)
}

/// A press, as far as tap counting is concerned.
pub struct Press {
    pub pointer: PointerInfo,
    pub position: Position,
    pub time: u64,
}

impl Press {
    /// Whether the press lands on `tap`.
    pub open spec fn lands_on(self, tap: TapState, near: Nearness) -> bool {
        near(tap.position, self.position, slop(self.pointer.pointer_type))
    }

    /// The taps that the press repeats.
    pub open spec fn repeats(self, near: Nearness) -> spec_fn(TapState) -> bool {
        |tap: TapState| self.lands_on(tap, near) && tap.valid_at(self.time)
    }

    /// The tap that the press makes.
    pub open spec fn tap(self, count: u8) -> TapState {
        TapState::pressed(self.pointer.pointer_id, self.position, self.time, count)
    }

    /// The click or tap count of the press: one more than that of the tap it repeats.
    pub open spec fn count(self, taps: Seq<TapState>, near: Nearness) -> u8 {
        match first_where(taps, self.repeats(near), 0) {
            Some(i) => (taps[i].count + 1) as u8,
            None => 1,
        }
    }

    /// The taps with that of the press recorded: in the place of the tap it repeats, else in the
    /// place of the first tap of its pointer, else at the end.
    pub open spec fn recorded(self, taps: Seq<TapState>, near: Nearness) -> Seq<TapState> {
        let tap = self.tap(self.count(taps, near));
        match first_where(taps, self.repeats(near), 0) {
            Some(i) => taps.update(i, tap),
            None => match first_where(taps, of_pointer(self.pointer.pointer_id), 0) {
                Some(i) => taps.update(i, tap),
                None => taps.push(tap),
            },
        }
    }

    /// The taps after the press: those recorded that are worth keeping.
    pub open spec fn after(self, taps: Seq<TapState>, near: Nearness) -> Seq<TapState> {
        self.recorded(taps, near).filter(live(self.time))
    }

    /// Whether the search from `from` on for the tap that the press repeats stays within the range
    /// of time: each tap that the press lands on, up to the one it repeats, has a deadline.
    pub open spec fn search_in_range(self, taps: Seq<TapState>, near: Nearness, from: int) -> bool
        decreases taps.len() - from,
    {
        from < taps.len() ==> {
            &&& self.lands_on(taps[from], near) ==> taps[from].has_deadline()
            &&& self.repeats(near)(taps[from]) || self.search_in_range(taps, near, from + 1)
        }
    }

    /// Whether counting the press overflows neither a time nor the count.
    pub open spec fn in_range(self, taps: Seq<TapState>, near: Nearness) -> bool {
        &&& self.search_in_range(taps, near, 0)
        &&& first_where(taps, self.repeats(near), 0) matches Some(i) ==> taps[i].count < u8::MAX
        &&& expiry_in_range(self.recorded(taps, near))
    }
}

/// Whether each tap whose age matters has a deadline.
pub open spec fn expiry_in_range(taps: Seq<TapState>) -> bool {
    forall|i: int| 0 <= i < taps.len() && !(#[trigger] taps[i]).is_down() ==> taps[i].has_deadline()
}

/// The taps after the pointer `pointer_id` was released at `time`.
pub open spec fn released(
    taps: Seq<TapState>,
    pointer_id: Option<u64>,
    time: u64,
) -> Seq<TapState> {
    match first_where(taps, of_pointer(pointer_id), 0) {
        Some(i) => taps.update(i, TapState { up_time: time, ..taps[i] }),
        None => taps,
    }
}

/// The count that a release of the pointer `pointer_id` gets, if it ends a known tap.
pub open spec fn release_count(taps: Seq<TapState>, pointer_id: Option<u64>) -> Option<u8> {
    match first_where(taps, of_pointer(pointer_id), 0) {
        Some(i) => Some(taps[i].count),
        None => None,
    }
}

/// The count that a motion of the pointer `pointer_id` gets, if the pointer is down.
pub open spec fn drag_count(taps: Seq<TapState>, pointer_id: Option<u64>) -> Option<u8> {
    match first_where(taps, down_of_pointer(pointer_id), 0) {
        Some(i) => Some(taps[i].count),
        None => None,
    }
}

/// The taps after the pointer `pointer_id` left or was cancelled.
pub open spec fn departed(taps: Seq<TapState>, pointer_id: Option<u64>) -> Seq<TapState> {
    taps.filter(of_pointer(pointer_id))
}

/// The recent taps.
#[derive(Debug, PartialEq, Eq)]
pub struct TapCounter {
    taps: Vec<TapState>,
}

impl View for TapCounter {
    type V = Seq<TapState>;

    closed spec fn view(&self) -> Seq<TapState> {
        self.taps@
    }
}

/// Appending an element to a sequence appends it to the filtered sequence, or leaves it unchanged.
proof fn lemma_filter_push(taps: Seq<TapState>, tap: TapState, p: spec_fn(TapState) -> bool)
    ensures
        taps.push(tap).filter(p) == (if p(tap) {
            taps.filter(p).push(tap)
        } else {
            taps.filter(p)
        }),
{
    reveal(Seq::filter);
    assert(taps.push(tap).drop_last() =~= taps);
}

impl TapCounter {
    /// A counter that knows of no tap.
    pub fn new() -> (counter: TapCounter)
        ensures
            counter@ == Seq::<TapState>::empty(),
    {
        TapCounter { taps: Vec::new() }
    }

    /// A counter that knows of the same taps.
    pub fn duplicate(&self) -> (counter: TapCounter)
        ensures
            counter@ == self@,
    {
        let taps: Vec<TapState> = self.taps.clone();
        assert(taps@ =~= self.taps@);
        TapCounter { taps }
    }

    /// The index of the tap that the press repeats, or `Err` where the search leaves the range of
    /// time.
    fn find_repeated<F: Fn(Position, Position, u32) -> bool>(
        &self,
        pointer: PointerInfo,
        position: Position,
        time: u64,
        near: &F,
    ) -> (found: Result<Option<usize>, ()>)
        requires
            is_function(near),
        ensures
            ({
                let press = Press { pointer, position, time };
                &&& found is Ok <==> press.search_in_range(self@, nearness(near), 0)
                &&& found matches Ok(Some(i)) ==> i < self@.len() && first_where(
                    self@,
                    press.repeats(nearness(near)),
                    0,
                ) == Some(i as int)
                &&& found matches Ok(None) ==> first_where(self@, press.repeats(nearness(near)), 0)
                    is None
            }),
    {
        let ghost press = Press { pointer, position, time };
        let slop: u32 = slop(pointer.pointer_type);
        let mut i: usize = 0;
        while i < self.taps.len()
            invariant
                is_function(near),
                press == (Press { pointer, position, time }),
                slop == crate::pointer::slop(pointer.pointer_type),
                i <= self.taps.len(),
                press.search_in_range(self@, nearness(near), 0) == press.search_in_range(
                    self@,
                    nearness(near),
                    i as int,
                ),
                first_where(self@, press.repeats(nearness(near)), 0) == first_where(
                    self@,
                    press.repeats(nearness(near)),
                    i as int,
                ),
            decreases self.taps.len() - i,
        {
            let tap: TapState = self.taps[i];
            if near(tap.position, position, slop) {
                if tap.up_time > u64::MAX - TAP_TIMEOUT {
                    return Err(());
                }
                if tap.is_valid_for(time) {
                    return Ok(Some(i));
                }
            }
            i += 1;
        }
        Ok(None)
    }

    /// The index of the first tap of the pointer `pointer_id`.
    fn find_pointer(&self, pointer_id: Option<u64>) -> (found: Option<usize>)
        ensures
            found matches Some(i) ==> i < self@.len() && first_where(
                self@,
                of_pointer(pointer_id),
                0,
            ) == Some(i as int),
            found is None ==> first_where(self@, of_pointer(pointer_id), 0) is None,
    {
        let mut i: usize = 0;
        while i < self.taps.len()
            invariant
                i <= self.taps.len(),
                first_where(self@, of_pointer(pointer_id), 0) == first_where(
                    self@,
                    of_pointer(pointer_id),
                    i as int,
                ),
            decreases self.taps.len() - i,
        {
            if self.taps[i].pointer_is(pointer_id) {
                return Some(i);
            }
            i += 1;
        }
        None
    }

    /// Whether each tap whose age matters has a deadline.
    fn can_expire(&self) -> (possible: bool)
        ensures
            possible == expiry_in_range(self@),
    {
        let mut i: usize = 0;
        while i < self.taps.len()
            invariant
                i <= self.taps.len(),
                forall|j: int|
                    0 <= j < i && !(#[trigger] self@[j]).is_down() ==> self@[j].has_deadline(),
            decreases self.taps.len() - i,
        {
            let tap: TapState = self.taps[i];
            if !tap.is_down() && tap.up_time > u64::MAX - TAP_TIMEOUT {
                assert(!self@[i as int].is_down() && !self@[i as int].has_deadline());
                return false;
            }
            i += 1;
        }
        true
    }

    /// Forgets the taps that are neither down nor recent enough at `time` to be repeated.
    pub fn clear_expired_taps(&mut self, time: u64)
        requires
            expiry_in_range(old(self)@),
        ensures
            final(self)@ == old(self)@.filter(live(time)),
    {
        let mut kept: Vec<TapState> = Vec::new();
        let mut i: usize = 0;
        proof {
            reveal(Seq::filter);
        }
        while i < self.taps.len()
            invariant
                i <= self.taps.len(),
                expiry_in_range(self@),
                kept@ == self@.take(i as int).filter(live(time)),
            decreases self.taps.len() - i,
        {
            let tap: TapState = self.taps[i];
            proof {
                assert(self@[i as int] == tap);
                assert(self@.take(i + 1) =~= self@.take(i as int).push(tap));
                lemma_filter_push(self@.take(i as int), tap, live(time));
            }
            if tap.is_down() || tap.is_valid_for(time) {
                kept.push(tap);
            }
            i += 1;
        }
        proof {
            assert(self@.take(i as int) =~= self@);
        }
        self.taps = kept;
    }

    /// Counts a press of `pointer` and returns its click or tap count.
    ///
    /// Returns `None`, and counts nothing, where a time or the count leaves its range.
    pub fn press<F: Fn(Position, Position, u32) -> bool>(
        &mut self,
        pointer: PointerInfo,
        position: Position,
        time: u64,
        near: &F,
    ) -> (count: Option<u8>)
        requires
            is_function(near),
        ensures
            ({
                let press = Press { pointer, position, time };
                let taps = old(self)@;
                &&& count is Some <==> press.in_range(taps, nearness(near))
                &&& count matches Some(n) ==> n == press.count(taps, nearness(near))
                    && final(self)@ == press.after(taps, nearness(near))
                &&& count is None ==> final(self)@ == taps
            }),
    {
        let ghost press = Press { pointer, position, time };
        let repeated: Option<usize> = match self.find_repeated(pointer, position, time, near) {
            Ok(found) => found,
            Err(()) => {
                return None;
            },
        };
        let count: u8 = match repeated {
            Some(i) => {
                if self.taps[i].count == u8::MAX {
                    return None;
                }
                self.taps[i].count + 1
            },
            None => 1,
        };
        let tap = TapState {
            pointer_id: pointer.pointer_id,
            down_time: time,
            up_time: time,
            count,
            position,
        };
        let slot: Option<usize> = match repeated {
            Some(i) => Some(i),
            None => self.find_pointer(pointer.pointer_id),
        };
        match slot {
            Some(i) => {
                let replaced: TapState = self.taps[i];
                self.taps.set(i, tap);
                if !self.can_expire() {
                    self.taps.set(i, replaced);
                    assert(self@ =~= old(self)@);
                    return None;
                }
            },
            None => {
                self.taps.push(tap);
                if !self.can_expire() {
                    let _ = self.taps.pop();
                    assert(self@ =~= old(self)@);
                    return None;
                }
            },
        }
        assert(self@ == press.recorded(old(self)@, nearness(near)));
        self.clear_expired_taps(time);
        Some(count)
    }

    /// Counts the release of the pointer `pointer_id` at `time` and returns the count of the tap
    /// that it ends.
    pub fn release(&mut self, pointer_id: Option<u64>, time: u64) -> (count: Option<u8>)
        ensures
            final(self)@ == released(old(self)@, pointer_id, time),
            count == release_count(old(self)@, pointer_id),
    {
        match self.find_pointer(pointer_id) {
            Some(i) => {
                let mut tap: TapState = self.taps[i];
                tap.up_time = time;
                self.taps.set(i, tap);
                Some(tap.count)
            },
            None => None,
        }
    }

    /// The count of a motion of the pointer `pointer_id`, if that pointer is down.
    pub fn drag(&self, pointer_id: Option<u64>) -> (count: Option<u8>)
        ensures
            count == drag_count(self@, pointer_id),
    {
        let mut i: usize = 0;
        while i < self.taps.len()
            invariant
                i <= self.taps.len(),
                first_where(self@, down_of_pointer(pointer_id), 0) == first_where(
                    self@,
                    down_of_pointer(pointer_id),
                    i as int,
                ),
            decreases self.taps.len() - i,
        {
            let tap: TapState = self.taps[i];
            if tap.pointer_is(pointer_id) && tap.is_down() {
                return Some(tap.count);
            }
            i += 1;
        }
        None
    }

    /// Forgets the taps of all pointers but `pointer_id`, which left or was cancelled.
    pub fn depart(&mut self, pointer_id: Option<u64>)
        ensures
            final(self)@ == departed(old(self)@, pointer_id),
    {
        let mut kept: Vec<TapState> = Vec::new();
        let mut i: usize = 0;
        proof {
            reveal(Seq::filter);
        }
        while i < self.taps.len()
            invariant
                i <= self.taps.len(),
                kept@ == self@.take(i as int).filter(of_pointer(pointer_id)),
            decreases self.taps.len() - i,
        {
            let tap: TapState = self.taps[i];
            proof {
                assert(self@.take(i + 1) =~= self@.take(i as int).push(tap));
                lemma_filter_push(self@.take(i as int), tap, of_pointer(pointer_id));
            }
            if tap.pointer_is(pointer_id) {
                kept.push(tap);
            }
            i += 1;
        }
        proof {
            assert(self@.take(i as int) =~= self@);
        }
        self.taps = kept;
    }
}

} // verus!
