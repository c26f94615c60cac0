//! Reading of an IME composition out of the input context of a window.
//!
//! The input context can only be asked by the window's own code. [`from_imm`] therefore returns a
//! step: either the finished translation, or a question and the state in which to go on with the
//! answer.

use vstd::prelude::*;
use vstd::string::*;
use vstd::utf8::*;

use crate::event::{texts_view, CompositionState, TextInputEvent, TextInputView, TextRange};
use crate::utf16::{
    characters, decode_utf16, lemma_offset_bounds, lemma_offset_step, lemma_offsets_ordered,
    text_from_utf16, units_of, utf16_len, utf16_offset, utf8_len, utf8_offset,
};
use crate::win32::{
    low_bits, ATTR_TARGET_CONVERTED, ATTR_TARGET_NOTCONVERTED, GCS_COMPATTR, GCS_COMPSTR,
    GCS_CURSORPOS, GCS_RESULTSTR,
};

verus! {

/// The text that the bytes of a composition string hold, if they are well-formed UTF-16.
pub open spec fn text_of(data: Seq<u8>) -> Option<Seq<char>> {
    if data.len() % 2 != 0 {
        None
    } else {
        decode_utf16(units_of(data))
    }
}

/// `data` cut or filled up with zeros to the length `len`.
pub open spec fn resized(data: Seq<u8>, len: nat) -> Seq<u8> {
    Seq::new(
        len,
        |i: int|
            if i < data.len() {
                data[i]
            } else {
                0
            },
    )
}

/// Whether the character with the index `k` has an attribute that marks it as part of the clause
/// being converted.
pub open spec fn is_targeted(text: Seq<char>, attrs: Seq<u8>, k: int) -> bool {
    let at = utf16_offset(text, k) as int;
    &&& at < attrs.len()
    &&& attrs[at] == ATTR_TARGET_CONVERTED || attrs[at] == ATTR_TARGET_NOTCONVERTED
}

/// Whether the character with the index `k` has an attribute that marks it as outside the clause
/// being converted.
pub open spec fn is_untargeted(text: Seq<char>, attrs: Seq<u8>, k: int) -> bool {
    utf16_offset(text, k) < attrs.len() && !is_targeted(text, attrs, k)
}

/// The first targeted character from `from` on.
pub open spec fn clause_start(text: Seq<char>, attrs: Seq<u8>, from: int) -> Option<int>
    decreases text.len() - from,
{
    if from >= text.len() {
        None
    } else if is_targeted(text, attrs, from) {
        Some(from)
    } else {
        clause_start(text, attrs, from + 1)
    }
}

/// The first untargeted character from `from` on, or the end of the text.
pub open spec fn clause_end(text: Seq<char>, attrs: Seq<u8>, from: int) -> int
    decreases text.len() - from,
{
    if from >= text.len() {
        text.len() as int
    } else if is_untargeted(text, attrs, from) {
        from
    } else {
        clause_end(text, attrs, from + 1)
    }
}

/// The byte offsets of the clause being converted, if the IME selected one.
pub open spec fn clause(text: Seq<char>, attrs: Seq<u8>) -> Option<(nat, nat)> {
    match clause_start(text, attrs, 0) {
        Some(start) => Some(
            (utf8_offset(text, start), utf8_offset(text, clause_end(text, attrs, start + 1))),
        ),
        None => None,
    }
}

/// The byte offset of the cursor that the input context reports as `cursor` characters into the
/// text, if it reports one.
pub open spec fn cursor_offset(text: Seq<char>, cursor: i32) -> Option<nat> {
    if cursor < 0 {
        None
    } else if cursor < text.len() {
        Some(utf8_offset(text, cursor as int))
    } else {
        Some(encode_utf8(text).len())
    }
}

/// Past the last attribute, no character is targeted or untargeted.
proof fn lemma_no_attributes(text: Seq<char>, attrs: Seq<u8>, k: int)
    requires
        0 <= k <= text.len(),
        utf16_offset(text, k) >= attrs.len(),
    ensures
        clause_start(text, attrs, k) is None,
        clause_end(text, attrs, k) == text.len(),
    decreases text.len() - k,
{
    if k < text.len() {
        lemma_offsets_ordered(text, k, k + 1);
        lemma_no_attributes(text, attrs, k + 1);
    }
}

/// Decodes the bytes of a composition string.
pub fn composition_string(data: &Vec<u8>) -> (text: Option<String>)
    ensures
        match text {
            Some(text) => text_of(data@) == Some(text@),
            None => text_of(data@) is None,
        },
{
    if data.len() % 2 != 0 {
        return None;
    }
    let mut units: Vec<u16> = Vec::new();
    let mut i: usize = 0;
    while i < data.len()
        invariant
            data.len() % 2 == 0,
            i % 2 == 0,
            i <= data.len(),
            units@ == units_of(data@).take(i as int / 2),
        decreases data.len() - i,
    {
        // Windows keeps wide characters in little-endian order.
        let unit: u16 = data[i] as u16 + 0x100 * (data[i + 1] as u16);
        assert(units_of(data@)[i as int / 2] == unit);
        units.push(unit);
        i += 2;
    }
    assert(units@ =~= units_of(data@));
    text_from_utf16(&units)
}

/// The length of a text in bytes.
fn byte_len(text: &String) -> (len: usize)
    ensures
        len == encode_utf8(text@).len(),
{
    text.as_str().as_bytes().len()
}

/// Finds the byte offsets of the clause being converted: from the first targeted character to the
/// next untargeted one.
///
/// `attrs` holds one attribute for each UTF-16 unit of `text`.
pub fn target_clause(text: &String, attrs: &Vec<u8>) -> (span: Option<(usize, usize)>)
    ensures
        match span {
            Some((start, end)) => clause(text@, attrs@) == Some((start as nat, end as nat)),
            None => clause(text@, attrs@) is None,
        },
{
    let len: usize = byte_len(text);
    let chars: Vec<char> = characters(text.as_str());
    let mut first: Option<usize> = None;
    let mut boundary: usize = 0;
    let mut attr: usize = 0;
    let mut k: usize = 0;
    let ghost mut start: int = 0;
    proof {
        lemma_offset_bounds(text@, 0);
    }
    while k < chars.len()
        invariant
            chars@ == text@,
            len == encode_utf8(text@).len(),
            k <= chars.len(),
            boundary == utf8_offset(text@, k as int),
            attr == utf16_offset(text@, k as int),
            match first {
                None => clause_start(text@, attrs@, 0) == clause_start(text@, attrs@, k as int),
                Some(first) => {
                    &&& 0 <= start < k
                    &&& clause_start(text@, attrs@, 0) == Some(start)
                    &&& first == utf8_offset(text@, start)
                    &&& clause_end(text@, attrs@, start + 1) == clause_end(text@, attrs@, k as int)
                },
            },
        decreases chars.len() - k,
    {
        if attr >= attrs.len() {
            proof {
                lemma_no_attributes(text@, attrs@, k as int);
                lemma_offset_bounds(text@, k as int);
            }
            return match first {
                Some(first) => Some((first, len)),
                None => None,
            };
        }
        let targeted: bool = attrs[attr] == ATTR_TARGET_CONVERTED || attrs[attr]
            == ATTR_TARGET_NOTCONVERTED;
        match first {
            None => {
                if targeted {
                    first = Some(boundary);
                    proof {
                        start = k as int;
                    }
                }
            },
            Some(first) => {
                if !targeted {
                    return Some((first, boundary));
                }
            },
        }
        proof {
            lemma_offset_step(text@, k as int);
            lemma_offset_bounds(text@, k + 1);
        }
        boundary += utf8_len(chars[k]);
        attr += utf16_len(chars[k]);
        k += 1;
    }
    proof {
        lemma_offset_bounds(text@, k as int);
    }
    match first {
        Some(first) => Some((first, len)),
        None => None,
    }
}

/// Finds the byte offset of the cursor that the input context reports as `cursor` characters into
/// the text; a negative number reports none.
pub fn cursor_boundary(text: &String, cursor: i32) -> (offset: Option<usize>)
    ensures
        match offset {
            Some(offset) => cursor_offset(text@, cursor) == Some(offset as nat),
            None => cursor_offset(text@, cursor) is None,
        },
{
    if cursor < 0 {
        return None;
    }
    let len: usize = byte_len(text);
    let chars: Vec<char> = characters(text.as_str());
    let mut boundary: usize = 0;
    let mut k: usize = 0;
    proof {
        lemma_offset_bounds(text@, 0);
    }
    while k < chars.len() && (k as u64) < (cursor as u64)
        invariant
            cursor >= 0,
            chars@ == text@,
            len == encode_utf8(text@).len(),
            k <= chars.len(),
            k <= cursor,
            boundary == utf8_offset(text@, k as int),
        decreases chars.len() - k,
    {
        proof {
            lemma_offset_step(text@, k as int);
            lemma_offset_bounds(text@, k + 1);
        }
        boundary += utf8_len(chars[k]);
        k += 1;
    }
    proof {
        lemma_offset_bounds(text@, k as int);
    }
    Some(boundary)
}

/// What is being read out of the input context.
#[derive(Debug, PartialEq, Eq)]
pub enum Reading {
    /// The committed text.
    Result,
    /// The text being composed.
    Composition,
    /// The attributes of the text being composed, which is this.
    Attributes(String),
}

/// Mathematical model of [`Reading`].
#[verifier::ext_equal]
pub enum ReadingView {
    Result,
    Composition,
    Attributes(Seq<char>),
}

impl View for Reading {
    type V = ReadingView;

    open spec fn view(&self) -> ReadingView {
        match *self {
            Reading::Result => ReadingView::Result,
            Reading::Composition => ReadingView::Composition,
            Reading::Attributes(text) => ReadingView::Attributes(text@),
        }
    }
}

impl ReadingView {
    /// The index under which the input context keeps what is read.
    pub open spec fn mode(self) -> u32 {
        match self {
            ReadingView::Result => GCS_RESULTSTR,
            ReadingView::Composition => GCS_COMPSTR,
            ReadingView::Attributes(_) => GCS_COMPATTR,
        }
    }
}

/// Where the reading of a composition stands, between a question and its answer.
#[derive(Debug, PartialEq, Eq)]
pub enum ImmState {
    /// Waiting for the size of what is read.
    Sizing(Reading),
    /// Waiting for the bytes of what is read; the buffer has this size.
    Filling(Reading, i32),
    /// Waiting for the position of the cursor in the text.
    Cursor(String),
    /// Waiting to hear whether the text can have this selection.
    Selecting(String, TextRange),
}

/// Mathematical model of [`ImmState`].
#[verifier::ext_equal]
pub enum ImmStateView {
    Sizing(ReadingView),
    Filling(ReadingView, i32),
    Cursor(Seq<char>),
    Selecting(Seq<char>, TextRange),
}

impl View for ImmState {
    type V = ImmStateView;

    open spec fn view(&self) -> ImmStateView {
        match *self {
            ImmState::Sizing(reading) => ImmStateView::Sizing(reading@),
            ImmState::Filling(reading, size) => ImmStateView::Filling(reading@, size),
            ImmState::Cursor(text) => ImmStateView::Cursor(text@),
            ImmState::Selecting(text, range) => ImmStateView::Selecting(text@, range),
        }
    }
}

/// What to ask next.
#[derive(Clone, Copy, Debug, PartialEq, Eq, Structural)]
pub enum ImmQuery {
    /// Call `ImmGetCompositionStringW` with this index and no buffer; answer what it returns.
    Size(u32),
    /// Call `ImmGetCompositionStringW` with this index and a zeroed buffer of this size; answer
    /// what it returns, and the buffer.
    Data(u32, i32),
    /// Answer whether the event model accepts this selection of the composed text.
    Select(TextRange),
}

/// An answer to an [`ImmQuery`].
#[derive(Debug, PartialEq, Eq)]
pub enum ImmAnswer {
    /// Answer to [`ImmQuery::Size`].
    Size(i32),
    /// Answer to [`ImmQuery::Data`].
    Data(i32, Vec<u8>),
    /// Answer to [`ImmQuery::Select`].
    Select(bool),
}

/// Mathematical model of [`ImmAnswer`].
#[verifier::ext_equal]
pub enum ImmAnswerView {
    Size(i32),
    Data(i32, Seq<u8>),
    Select(bool),
}

impl View for ImmAnswer {
    type V = ImmAnswerView;

    open spec fn view(&self) -> ImmAnswerView {
        match *self {
            ImmAnswer::Size(size) => ImmAnswerView::Size(size),
            ImmAnswer::Data(size, data) => ImmAnswerView::Data(size, data@),
            ImmAnswer::Select(accepted) => ImmAnswerView::Select(accepted),
        }
    }
}

/// Whether `answer` answers `query`.
pub open spec fn answers(query: ImmQuery, answer: ImmAnswerView) -> bool {
    match query {
        ImmQuery::Size(_) => answer is Size,
        ImmQuery::Data(_, _) => answer is Data,
        ImmQuery::Select(_) => answer is Select,
    }
}

/// A step in the reading of a composition.
#[derive(Debug, PartialEq, Eq)]
pub enum ImmStep {
    /// Ask what the state says, and resume it with the answer.
    Ask(ImmState),
    /// The translation; `None` is a message that means nothing.
    Done(Option<Vec<TextInputEvent>>),
}

/// Mathematical model of [`ImmStep`].
#[verifier::ext_equal]
pub enum ImmStepView {
    Ask(ImmStateView),
    Done(Option<Seq<TextInputView>>),
}

impl View for ImmStep {
    type V = ImmStepView;

    open spec fn view(&self) -> ImmStepView {
        match *self {
            ImmStep::Ask(state) => ImmStepView::Ask(state@),
            ImmStep::Done(Some(events)) => ImmStepView::Done(Some(texts_view(events@))),
            ImmStep::Done(None) => ImmStepView::Done(None),
        }
    }
}

impl ImmStateView {
    /// What the state waits for.
    pub open spec fn query(self) -> ImmQuery {
        match self {
            ImmStateView::Sizing(reading) => ImmQuery::Size(reading.mode()),
            ImmStateView::Filling(reading, size) => ImmQuery::Data(reading.mode(), size),
            ImmStateView::Cursor(_) => ImmQuery::Size(GCS_CURSORPOS),
            ImmStateView::Selecting(_, range) => ImmQuery::Select(range),
        }
    }

    /// The step that follows an answer.
    pub open spec fn next(self, answer: ImmAnswerView) -> ImmStepView {
        match (self, answer) {
            (ImmStateView::Sizing(reading), ImmAnswerView::Size(size)) => {
                if size > 0 {
                    ImmStepView::Ask(ImmStateView::Filling(reading, size))
                } else if size == 0 {
                    after_reading(reading, Some(seq![]))
                } else {
                    after_reading(reading, None)
                }
            },
            (ImmStateView::Filling(reading, _), ImmAnswerView::Data(size, data)) => {
                if size >= 0 {
                    after_reading(reading, Some(resized(data, size as nat)))
                } else {
                    after_reading(reading, None)
                }
            },
            (ImmStateView::Cursor(text), ImmAnswerView::Size(cursor)) => {
                match cursor_offset(text, cursor) {
                    Some(offset) => after_selecting(text, Some((offset, offset))),
                    None => after_selecting(text, None),
                }
            },
            (ImmStateView::Selecting(text, range), ImmAnswerView::Select(true)) => {
                ImmStepView::Done(
                    Some(seq![TextInputView::CompositionUpdate(text, Some(range))]),
                )
            },
            _ => ImmStepView::Done(None),
        }
    }
}

/// The step that follows the reading of `data`; `None` is a reading that failed.
pub open spec fn after_reading(reading: ReadingView, data: Option<Seq<u8>>) -> ImmStepView {
    match reading {
        ReadingView::Result => match read_text(data) {
            Some(text) => if text.len() == 0 {
                ImmStepView::Done(None)
            } else {
                ImmStepView::Done(Some(seq![TextInputView::Insert(text)]))
            },
            None => ImmStepView::Done(None),
        },
        ReadingView::Composition => match read_text(data) {
            Some(text) => ImmStepView::Ask(ImmStateView::Sizing(ReadingView::Attributes(text))),
            None => ImmStepView::Done(None),
        },
        ReadingView::Attributes(text) => match clause(text, read_attributes(data)) {
            Some(span) => after_selecting(text, Some(span)),
            // The IME has not selected a clause yet: the plain cursor has to do.
            None => ImmStepView::Ask(ImmStateView::Cursor(text)),
        },
    }
}

/// The text that was read, if it was read and is well-formed.
pub open spec fn read_text(data: Option<Seq<u8>>) -> Option<Seq<char>> {
    match data {
        Some(data) => text_of(data),
        None => None,
    }
}

/// The attributes that were read; there are none if they were not read.
pub open spec fn read_attributes(data: Option<Seq<u8>>) -> Seq<u8> {
    match data {
        Some(data) => data,
        None => seq![],
    }
}

/// The step that follows the choice of a span of byte offsets, if there is any, as the selection.
pub open spec fn after_selecting(text: Seq<char>, span: Option<(nat, nat)>) -> ImmStepView {
    if text.len() == 0 {
        ImmStepView::Done(Some(seq![TextInputView::CompositionEnd]))
    } else {
        match span {
            Some((start, end)) => if start <= u32::MAX && end <= u32::MAX {
                ImmStepView::Ask(
                    ImmStateView::Selecting(
                        text,
                        TextRange { start: start as u32, end: end as u32 },
                    ),
                )
            } else {
                ImmStepView::Done(None)
            },
            None => ImmStepView::Done(Some(seq![TextInputView::CompositionUpdate(text, None)])),
        }
    }
}

/// The first step for a composition message: a change of the result is read before one of the
/// composition, and other changes mean nothing.
pub open spec fn first_step(lparam: isize) -> ImmStepView {
    let flags = (lparam as int % 0x1_0000_0000) as u32;
    if flags & GCS_RESULTSTR != 0 {
        ImmStepView::Ask(ImmStateView::Sizing(ReadingView::Result))
    } else if flags & GCS_COMPSTR != 0 {
        ImmStepView::Ask(ImmStateView::Sizing(ReadingView::Composition))
    } else {
        ImmStepView::Done(None)
    }
}

/// Starts to translate a `WM_IME_COMPOSITION` message into text-input events.
///
/// `lparam` is the bitmask of `GCS_*` flags that describes which composition strings changed.
pub fn from_imm(lparam: isize) -> (step: ImmStep)
    ensures
        step@ == first_step(lparam),
{
    let flags: u32 = low_bits(lparam);
    if flags & GCS_RESULTSTR != 0 {
        ImmStep::Ask(ImmState::Sizing(Reading::Result))
    } else if flags & GCS_COMPSTR != 0 {
        ImmStep::Ask(ImmState::Sizing(Reading::Composition))
    } else {
        ImmStep::Done(None)
    }
}

/// One event as a batch.
fn batch(event: TextInputEvent) -> (step: ImmStep)
    ensures
        step@ == ImmStepView::Done(Some(seq![event@])),
{
    let mut events: Vec<TextInputEvent> = Vec::new();
    events.push(event);
    assert(texts_view(events@) =~= seq![event@]);
    ImmStep::Done(Some(events))
}

/// Goes on after the choice of a selection.
fn select(text: String, span: Option<(usize, usize)>) -> (step: ImmStep)
    ensures
        step@ == after_selecting(
            text@,
            match span {
                Some((start, end)) => Some((start as nat, end as nat)),
                None => None,
            },
        ),
{
    if text.as_str().is_empty() {
        return batch(TextInputEvent::CompositionEnd);
    }
    match span {
        Some((start, end)) => {
            if start as u64 > u32::MAX as u64 || end as u64 > u32::MAX as u64 {
                return ImmStep::Done(None);
            }
            ImmStep::Ask(
                ImmState::Selecting(text, TextRange { start: start as u32, end: end as u32 }),
            )
        },
        None => batch(
            TextInputEvent::CompositionUpdate(CompositionState { text, selection: None }),
        ),
    }
}

impl Reading {
    /// Goes on with the bytes that were read, if they were.
    fn finish(self, data: Option<Vec<u8>>) -> (step: ImmStep)
        ensures
            step@ == after_reading(
                self@,
                match data {
                    Some(data) => Some(data@),
                    None => None,
                },
            ),
    {
        match self {
            Reading::Result => match data {
                Some(data) => match composition_string(&data) {
                    Some(text) => {
                        if text.as_str().is_empty() {
                            ImmStep::Done(None)
                        } else {
                            batch(TextInputEvent::Insert(text))
                        }
                    },
                    None => ImmStep::Done(None),
                },
                None => ImmStep::Done(None),
            },
            Reading::Composition => match data {
                Some(data) => match composition_string(&data) {
                    Some(text) => ImmStep::Ask(ImmState::Sizing(Reading::Attributes(text))),
                    None => ImmStep::Done(None),
                },
                None => ImmStep::Done(None),
            },
            Reading::Attributes(text) => {
                let attrs: Vec<u8> = match data {
                    Some(attrs) => attrs,
                    None => Vec::new(),
                };
                match target_clause(&text, &attrs) {
                    Some((start, end)) => select(text, Some((start, end))),
                    None => ImmStep::Ask(ImmState::Cursor(text)),
                }
            },
        }
    }
}

impl ImmState {
    /// What the state waits for.
    pub fn query(&self) -> (query: ImmQuery)
        ensures
            query == self@.query(),
    {
        match self {
            ImmState::Sizing(Reading::Result) => ImmQuery::Size(GCS_RESULTSTR),
            ImmState::Sizing(Reading::Composition) => ImmQuery::Size(GCS_COMPSTR),
            ImmState::Sizing(Reading::Attributes(_)) => ImmQuery::Size(GCS_COMPATTR),
            ImmState::Filling(Reading::Result, size) => ImmQuery::Data(GCS_RESULTSTR, *size),
            ImmState::Filling(Reading::Composition, size) => ImmQuery::Data(GCS_COMPSTR, *size),
            ImmState::Filling(Reading::Attributes(_), size) => ImmQuery::Data(GCS_COMPATTR, *size),
            ImmState::Cursor(_) => ImmQuery::Size(GCS_CURSORPOS),
            ImmState::Selecting(_, range) => ImmQuery::Select(*range),
        }
    }

    /// Goes on with the answer to the state's query.
    pub fn resume(self, answer: ImmAnswer) -> (step: ImmStep)
        requires
            answers(self@.query(), answer@),
        ensures
            step@ == self@.next(answer@),
    {
        match (self, answer) {
            (ImmState::Sizing(reading), ImmAnswer::Size(size)) => {
                if size > 0 {
                    ImmStep::Ask(ImmState::Filling(reading, size))
                } else if size == 0 {
                    reading.finish(Some(Vec::new()))
                } else {
                    reading.finish(None)
                }
            },
            (ImmState::Filling(reading, _), ImmAnswer::Data(size, data)) => {
                if size >= 0 {
                    let mut data: Vec<u8> = data;
                    let ghost filled = data@;
                    data.resize(size as usize, 0);
                    assert(data@ =~= resized(filled, size as nat));
                    reading.finish(Some(data))
                } else {
                    reading.finish(None)
                }
            },
            (ImmState::Cursor(text), ImmAnswer::Size(cursor)) => {
                match cursor_boundary(&text, cursor) {
                    Some(offset) => select(text, Some((offset, offset))),
                    None => select(text, None),
                }
            },
            (ImmState::Selecting(text, range), ImmAnswer::Select(true)) => {
                batch(
                    TextInputEvent::CompositionUpdate(
                        CompositionState { text, selection: Some(range) },
                    ),
                )
            },
            _ => ImmStep::Done(None),
        }
    }
}

} // verus!
