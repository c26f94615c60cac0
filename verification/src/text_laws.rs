//! What holds of the reading of compositions.

use vstd::prelude::*;
use vstd::utf8::*;

use crate::event::{TextInputView, TextRange};
use crate::text::{
    answers, clause, clause_end, clause_start, cursor_offset, first_step, read_attributes,
    read_text, resized, text_of, ImmAnswerView, ImmQuery, ImmStateView, ImmStepView, ReadingView,
};
use crate::utf16::{
    bytes_of, decode_utf16, encode_utf16, encode_utf16_char, lemma_offset_bounds,
    lemma_offset_is_boundary, lemma_offsets_ordered, pair_scalar, units_of, utf8_offset,
};
use crate::win32::{GCS_COMPATTR, GCS_COMPSTR, GCS_CURSORPOS, GCS_RESULTSTR};

verus! {

/// Whether a range of byte offsets selects whole characters of a text.
pub open spec fn selects_characters(text: Seq<char>, range: TextRange) -> bool {
    &&& range.start <= range.end <= encode_utf8(text).len()
    &&& is_char_boundary(encode_utf8(text), range.start as int)
    &&& is_char_boundary(encode_utf8(text), range.end as int)
}

/// UTF-16 decoding undoes UTF-16 encoding, for every text.
pub proof fn law_utf16_round_trip(text: Seq<char>)
    ensures
        decode_utf16(encode_utf16(text)) == Some(text),
    decreases text.len(),
{
    if text.len() > 0 {
        let c = text[0];
        let rest = text.drop_first();
        let units = encode_utf16(text);
        law_utf16_round_trip(rest);
        let scalar = c as u32;
        char_is_scalar(c);
        char_u32_cast(c, scalar);
        let head = encode_utf16_char(c);
        assert(units.skip(head.len() as int) =~= encode_utf16(rest));
        assert(seq![c] + rest =~= text);
        if scalar < 0x1_0000 {
            assert(units[0] as u32 == scalar);
        } else {
            assert(units[0] == head[0] && units[1] == head[1]);
            let rest = scalar - 0x1_0000;
            assert(head[0] == 0xD800 + rest / 0x400);
            assert(head[1] == 0xDC00 + rest % 0x400);
            assert(pair_scalar(units[0], units[1]) == scalar);
        }
    } else {
        assert(encode_utf16(text) =~= seq![]);
        assert(text =~= seq![]);
    }
}

/// The bytes in which Windows keeps a text are read back as that text, for every text.
pub proof fn law_composition_string_round_trip(text: Seq<char>)
    ensures
        text_of(bytes_of(encode_utf16(text))) == Some(text),
{
    let units = encode_utf16(text);
    let bytes = bytes_of(units);
    assert(bytes.len() == 2 * units.len());
    assert(units_of(bytes) =~= units) by {
        assert forall|i: int| 0 <= i < units.len() implies units_of(bytes)[i] == units[i] by {
            assert((2 * i) / 2 == i && (2 * i + 1) / 2 == i);
            assert(bytes[2 * i] == (units[i] % 0x100) as u8);
            assert(bytes[2 * i + 1] == (units[i] / 0x100) as u8);
        }
    }
    law_utf16_round_trip(text);
}

/// The clause starts at a character and ends at or after it.
proof fn lemma_clause_start(text: Seq<char>, attrs: Seq<u8>, from: int)
    requires
        0 <= from <= text.len(),
    ensures
        clause_start(text, attrs, from) matches Some(k) ==> from <= k < text.len(),
    decreases text.len() - from,
{
    if from < text.len() {
        lemma_clause_start(text, attrs, from + 1);
    }
}

/// The clause ends within the text.
proof fn lemma_clause_end(text: Seq<char>, attrs: Seq<u8>, from: int)
    requires
        0 <= from <= text.len(),
    ensures
        from <= clause_end(text, attrs, from) <= text.len(),
    decreases text.len() - from,
{
    if from < text.len() {
        lemma_clause_end(text, attrs, from + 1);
    }
}

/// Whether a span of byte offsets lies between characters of a text.
spec fn span_fits(text: Seq<char>, start: nat, end: nat) -> bool {
    &&& start <= end <= encode_utf8(text).len()
    &&& is_char_boundary(encode_utf8(text), start as int)
    &&& is_char_boundary(encode_utf8(text), end as int)
}

/// The clause that is selected lies between characters.
proof fn lemma_clause_fits(text: Seq<char>, attrs: Seq<u8>)
    ensures
        clause(text, attrs) matches Some((start, end)) ==> span_fits(text, start, end),
{
    lemma_clause_start(text, attrs, 0);
    if let Some(start) = clause_start(text, attrs, 0) {
        let end = clause_end(text, attrs, start + 1);
        lemma_clause_end(text, attrs, start + 1);
        lemma_offsets_ordered(text, start, end);
        lemma_offset_bounds(text, end);
        lemma_offset_is_boundary(text, start);
        lemma_offset_is_boundary(text, end);
    }
}

/// The cursor lies between characters.
proof fn lemma_cursor_fits(text: Seq<char>, cursor: i32)
    ensures
        cursor_offset(text, cursor) matches Some(offset) ==> span_fits(text, offset, offset),
{
    if cursor >= 0 {
        let k = if cursor < text.len() {
            cursor as int
        } else {
            text.len() as int
        };
        lemma_offset_bounds(text, k);
        lemma_offset_is_boundary(text, k);
        assert(cursor_offset(text, cursor) == Some(utf8_offset(text, k)));
    }
}

/// Every selection that the event model is asked to accept selects whole characters of the
/// composed text, whatever the input context answers.
pub proof fn law_selection_selects_characters(state: ImmStateView, answer: ImmAnswerView)
    ensures
        state.next(answer) matches ImmStepView::Ask(ImmStateView::Selecting(text, range))
            ==> selects_characters(text, range),
{
    match state {
        ImmStateView::Sizing(ReadingView::Attributes(text)) => {
            lemma_clause_fits(text, read_attributes(Some(seq![])));
            lemma_clause_fits(text, read_attributes(None));
        },
        ImmStateView::Filling(ReadingView::Attributes(text), _) => {
            if let ImmAnswerView::Data(size, data) = answer {
                lemma_clause_fits(text, read_attributes(Some(resized(data, size as nat))));
                lemma_clause_fits(text, read_attributes(None));
            }
        },
        ImmStateView::Cursor(text) => {
            if let ImmAnswerView::Size(cursor) = answer {
                lemma_cursor_fits(text, cursor);
            }
        },
        _ => {},
    }
}

/// What an input context, and the event model, answer while one message is processed.
pub struct ImmContext {
    /// What `ImmGetCompositionStringW` returns for an index and no buffer.
    pub size: spec_fn(u32) -> i32,
    /// What `ImmGetCompositionStringW` returns for an index and a buffer of a size, and what the
    /// buffer then holds.
    pub data: spec_fn(u32, i32) -> (i32, Seq<u8>),
    /// Whether a selection of a text is accepted.
    pub select: spec_fn(Seq<char>, TextRange) -> bool,
}

impl ImmContext {
    /// The answer to what `state` asks.
    pub open spec fn answer(self, state: ImmStateView) -> ImmAnswerView {
        match state.query() {
            ImmQuery::Size(mode) => ImmAnswerView::Size((self.size)(mode)),
            ImmQuery::Data(mode, size) => {
                let (size, data) = (self.data)(mode, size);
                ImmAnswerView::Data(size, data)
            },
            ImmQuery::Select(range) => match state {
                ImmStateView::Selecting(text, _) => ImmAnswerView::Select(
                    (self.select)(text, range),
                ),
                _ => ImmAnswerView::Select(false),
            },
        }
    }

    /// What the input context keeps under the index `mode`, if it can be read.
    pub open spec fn read(self, mode: u32) -> Option<Seq<u8>> {
        let size = (self.size)(mode);
        if size == 0 {
            Some(seq![])
        } else if size < 0 {
            None
        } else {
            let (filled, data) = (self.data)(mode, size);
            if filled < 0 {
                None
            } else {
                Some(resized(data, filled as nat))
            }
        }
    }

    /// The span of byte offsets to select in the composed `text`: the clause being converted, or
    /// else the cursor.
    pub open spec fn span(self, text: Seq<char>) -> Option<(nat, nat)> {
        match clause(text, read_attributes(self.read(GCS_COMPATTR))) {
            Some(span) => Some(span),
            None => match cursor_offset(text, (self.size)(GCS_CURSORPOS)) {
                Some(offset) => Some((offset, offset)),
                None => None,
            },
        }
    }

    /// The translation of a commit: the committed text, unless there is none.
    pub open spec fn committed(self) -> Option<Seq<TextInputView>> {
        match read_text(self.read(GCS_RESULTSTR)) {
            Some(text) => if text.len() == 0 {
                None
            } else {
                Some(seq![TextInputView::Insert(text)])
            },
            None => None,
        }
    }

    /// The translation of a change of the composition: an empty composition has ended, and any
    /// other is reported with its selection, if it can have the one that is wanted.
    pub open spec fn composed(self) -> Option<Seq<TextInputView>> {
        match read_text(self.read(GCS_COMPSTR)) {
            Some(text) => if text.len() == 0 {
                Some(seq![TextInputView::CompositionEnd])
            } else {
                match self.span(text) {
                    Some((start, end)) => {
                        let range = TextRange { start: start as u32, end: end as u32 };
                        if start <= u32::MAX && end <= u32::MAX && (self.select)(text, range) {
                            Some(seq![TextInputView::CompositionUpdate(text, Some(range))])
                        } else {
                            None
                        }
                    },
                    None => Some(seq![TextInputView::CompositionUpdate(text, None)]),
                }
            },
            None => None,
        }
    }

    /// The translation of a composition message with the flags `lparam`.
    pub open spec fn translation(self, lparam: isize) -> Option<Seq<TextInputView>> {
        let flags = (lparam as int % 0x1_0000_0000) as u32;
        if flags & GCS_RESULTSTR != 0 {
            self.committed()
        } else if flags & GCS_COMPSTR != 0 {
            self.composed()
        } else {
            None
        }
    }
}

/// The step that `step` leads to when at most `questions` more questions are asked.
pub open spec fn run(context: ImmContext, step: ImmStepView, questions: nat) -> ImmStepView
    decreases questions,
{
    match step {
        ImmStepView::Ask(state) if questions > 0 => run(
            context,
            state.next(context.answer(state)),
            (questions - 1) as nat,
        ),
        _ => step,
    }
}

/// Every question is answered by an answer of its kind.
pub proof fn law_context_answers(context: ImmContext, state: ImmStateView)
    ensures
        answers(state.query(), context.answer(state)),
{
}

/// Asking step by step, a composition message is translated after at most six questions, and the
/// translation is the one that the contents of the input context call for.
pub proof fn law_translation_is_reached(context: ImmContext, lparam: isize)
    ensures
        run(context, first_step(lparam), 6) == ImmStepView::Done(context.translation(lparam)),
{
    reveal_with_fuel(run, 7);
}

/// A composition message comes to one text event at most, and the selection of a composition that
/// it reports selects whole characters of the text.
pub proof fn law_translation_is_one_event(context: ImmContext, lparam: isize)
    ensures
        context.translation(lparam) matches Some(events) ==> {
            &&& events.len() == 1
            &&& events[0] matches TextInputView::CompositionUpdate(text, Some(range))
                ==> selects_characters(text, range)
        },
{
    if let Some(text) = read_text(context.read(GCS_COMPSTR)) {
        lemma_clause_fits(text, read_attributes(context.read(GCS_COMPATTR)));
        lemma_cursor_fits(text, (context.size)(GCS_CURSORPOS));
    }
}

} // verus!
