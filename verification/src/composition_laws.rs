//! What a composition message is translated to, told by what the input context holds.

use vstd::prelude::*;
use vstd::utf8::*;

use crate::event::{TextInputView, TextRange};
use crate::text::{
    clause, clause_end, clause_start, cursor_offset, first_step, is_targeted, is_untargeted,
    read_attributes, resized, text_of, ImmAnswerView, ImmQuery, ImmStateView, ImmStepView,
    ReadingView,
};
use crate::text_laws::{
    law_composition_string_round_trip, law_translation_is_reached, run, ImmContext,
};
use crate::utf16::{
    bytes_of, decode_utf16, encode_utf16, encode_utf16_char, is_high_surrogate, lemma_encode_push,
    lemma_offset_bounds, pair_scalar, prepend, units_of,
};

verus! {

/// Cutting or filling up data keeps each byte that there is room for, puts zeros behind the data,
/// and changes nothing if the length is that of the data.
pub proof fn law_resizing_keeps_data(data: Seq<u8>, len: nat)
    ensures
        resized(data, data.len()) == data,
        resized(data, len).len() == len,
        forall|i: int|
            0 <= i < len && i < data.len() ==> #[trigger] resized(data, len)[i] == data[i],
        forall|i: int| data.len() <= i < len ==> #[trigger] resized(data, len)[i] == 0,
{
    assert(resized(data, data.len()) =~= data);
}

/// A character of the basic plane is one unit of UTF-16, its value; any other is a pair of
/// surrogates, the first of which holds the upper ten bits of what its value exceeds 2^16 by, and
/// the second the lower ten.
pub proof fn law_units_of_a_character(c: char)
    ensures
        ({
            let units = encode_utf16_char(c);
            &&& (c as u32) < 0x1_0000 ==> units.len() == 1 && units[0] == c as u32
            &&& (c as u32) >= 0x1_0000 ==> {
                &&& units.len() == 2
                &&& 0xD800 <= units[0] <= 0xDBFF
                &&& 0xDC00 <= units[1] <= 0xDFFF
                &&& c as u32 == 0x1_0000 + (units[0] - 0xD800) * 1024 + (units[1] - 0xDC00)
            }
        }),
{
    char_is_scalar(c);
}

/// The units of a text are those of its characters, in order.
pub proof fn law_units_of_a_text(text: Seq<char>, c: char)
    ensures
        encode_utf16(seq![]) == Seq::<u16>::empty(),
        encode_utf16(text.push(c)) == encode_utf16(text) + encode_utf16_char(c),
{
    lemma_encode_push(text, c);
}

/// The bytes of units are two for each, the lower one first.
pub proof fn law_bytes_of_units(units: Seq<u16>, i: int)
    ensures
        bytes_of(units).len() == 2 * units.len(),
        0 <= i < units.len() ==> bytes_of(units)[2 * i] + 256 * bytes_of(units)[2 * i + 1]
            == units[i],
{
    if 0 <= i < units.len() {
        assert((2 * i) / 2 == i && (2 * i + 1) / 2 == i);
        assert((2 * i) % 2 == 0 && (2 * i + 1) % 2 == 1);
    }
}

/// Units are decoded to a text only if they encode it.
pub proof fn law_decoded_units_encode_the_text(units: Seq<u16>)
    ensures
        decode_utf16(units) matches Some(text) ==> encode_utf16(text) == units,
    decreases units.len(),
{
    if decode_utf16(units) is Some && units.len() > 0 {
        let width: int = if is_high_surrogate(units[0]) {
            2
        } else {
            1
        };
        let scalar: u32 = if is_high_surrogate(units[0]) {
            pair_scalar(units[0], units[1])
        } else {
            units[0] as u32
        };
        let c = scalar as char;
        let rest = decode_utf16(units.skip(width));
        assert(decode_utf16(units) == prepend(c, rest));
        let tail = rest->0;
        let text = decode_utf16(units)->0;
        assert(text == seq![c] + tail);
        law_decoded_units_encode_the_text(units.skip(width));
        assert(is_scalar(scalar));
        char_u32_cast(c, scalar);
        assert(c as u32 == scalar);
        assert(text.drop_first() =~= tail);
        assert(encode_utf16(text) == encode_utf16_char(c) + encode_utf16(tail));
        assert(encode_utf16_char(c) =~= units.take(width));
        assert(units =~= units.take(width) + units.skip(width));
    }
}

/// Bytes are read as a text exactly if they are the little-endian UTF-16 of that text.
pub proof fn law_text_is_read_exactly(data: Seq<u8>, text: Seq<char>)
    ensures
        text_of(data) == Some(text) <==> data == bytes_of(encode_utf16(text)),
{
    law_composition_string_round_trip(text);
    if text_of(data) == Some(text) {
        law_decoded_units_encode_the_text(units_of(data));
        let units = units_of(data);
        assert(encode_utf16(text) == units);
        let bytes = bytes_of(units);
        assert(bytes.len() == data.len());
        assert forall|i: int| 0 <= i < data.len() implies bytes[i] == data[i] by {
            assert(units[i / 2] == data[2 * (i / 2)] + 0x100 * data[2 * (i / 2) + 1]);
        }
        assert(bytes =~= data);
    }
}

/// Whether the input context holds `bytes` under the index `mode`: it reports a size of zero and
/// there are none, or it fills a buffer of the size it reports with as many bytes as it then says,
/// zeros standing where the buffer ends before.
pub open spec fn holds(context: ImmContext, mode: u32, bytes: Seq<u8>) -> bool {
    let size = (context.size)(mode);
    let (filled, data) = (context.data)(mode, size);
    if size <= 0 {
        size == 0 && bytes.len() == 0
    } else {
        &&& filled == bytes.len()
        &&& forall|i: int|
            0 <= i < bytes.len() ==> #[trigger] bytes[i] == (if i < data.len() {
                data[i]
            } else {
                0
            })
    }
}

/// Whether the input context reports an error instead of a size, or on filling the buffer.
pub open spec fn fails(context: ImmContext, mode: u32) -> bool {
    let size = (context.size)(mode);
    size < 0 || size > 0 && (context.data)(mode, size).0 < 0
}

/// A context that reports the size of some bytes and fills a buffer of that size with them holds
/// those bytes; every context holds something under an index, or fails.
pub proof fn law_what_a_context_holds(context: ImmContext, mode: u32, bytes: Seq<u8>)
    ensures
        (context.size)(mode) == bytes.len() && (context.data)(mode, bytes.len() as i32) == (
            bytes.len() as i32,
            bytes,
        ) ==> holds(context, mode, bytes),
        fails(context, mode) || exists|bytes: Seq<u8>| holds(context, mode, bytes),
{
    let size = (context.size)(mode);
    let (filled, data) = (context.data)(mode, size);
    if size == 0 {
        assert(holds(context, mode, seq![]));
    } else if !fails(context, mode) {
        let held = Seq::new(
            filled as nat,
            |i: int|
                if i < data.len() {
                    data[i]
                } else {
                    0u8
                },
        );
        assert(holds(context, mode, held));
    }
}

/// What the context holds is what is read.
proof fn lemma_reads_what_is_held(context: ImmContext, mode: u32, bytes: Seq<u8>)
    ensures
        holds(context, mode, bytes) ==> context.read(mode) == Some(bytes),
        fails(context, mode) ==> context.read(mode) is None,
{
    if holds(context, mode, bytes) {
        let size = (context.size)(mode);
        if size > 0 {
            let (filled, data) = (context.data)(mode, size);
            law_resizing_keeps_data(data, filled as nat);
            assert(resized(data, filled as nat) =~= bytes);
        } else {
            assert(bytes =~= seq![]);
        }
    }
}

/// Whether the bit with this value, a power of two, is set in `lparam`.
pub open spec fn has_bit(lparam: isize, value: int) -> bool {
    lparam as int / value % 2 == 1
}

/// The bits that tell what a composition message is about.
proof fn lemma_composition_bits(lparam: isize)
    ensures
        ({
            let flags = (lparam as int % 0x1_0000_0000) as u32;
            &&& flags & 0x800 != 0 <==> has_bit(lparam, 0x800)
            &&& flags & 0x8 != 0 <==> has_bit(lparam, 0x8)
        }),
{
    let flags = (lparam as int % 0x1_0000_0000) as u32;
    let rest = lparam as int / 0x1_0000_0000;
    assert(flags & 0x800 != 0 <==> flags / 0x800 % 2 == 1) by (bit_vector);
    assert(flags & 0x8 != 0 <==> flags / 0x8 % 2 == 1) by (bit_vector);
    assert(lparam == rest * 0x1_0000_0000 + flags);
    assert(lparam as int / 0x800 == rest * 0x20_0000 + flags as int / 0x800);
    assert(lparam as int / 0x8 == rest * 0x2000_0000 + flags as int / 0x8);
}

/// Whether `bytes` are the little-endian UTF-16 of a text.
pub open spec fn is_text(bytes: Seq<u8>) -> bool {
    exists|text: Seq<char>| bytes == #[trigger] bytes_of(encode_utf16(text))
}

/// A commit is translated to the insertion of exactly the text that the input context holds as the
/// result, however long it is.
pub proof fn law_commit_inserts_what_is_held(context: ImmContext, lparam: isize, text: Seq<char>)
    requires
        has_bit(lparam, 0x800),
        holds(context, 0x800, bytes_of(encode_utf16(text))),
    ensures
        text.len() > 0 ==> run(context, first_step(lparam), 6) == ImmStepView::Done(
            Some(seq![TextInputView::Insert(text)]),
        ),
        text.len() == 0 ==> run(context, first_step(lparam), 6) == ImmStepView::Done(None),
{
    let bytes = bytes_of(encode_utf16(text));
    lemma_composition_bits(lparam);
    law_translation_is_reached(context, lparam);
    lemma_reads_what_is_held(context, 0x800, bytes);
    law_composition_string_round_trip(text);
}

/// A commit means nothing if the result cannot be read or is no text.
pub proof fn law_unreadable_commit_means_nothing(
    context: ImmContext,
    lparam: isize,
    bytes: Seq<u8>,
)
    requires
        has_bit(lparam, 0x800),
        fails(context, 0x800) || holds(context, 0x800, bytes) && !is_text(bytes),
    ensures
        run(context, first_step(lparam), 6) == ImmStepView::Done(None),
{
    lemma_composition_bits(lparam);
    law_translation_is_reached(context, lparam);
    lemma_reads_what_is_held(context, 0x800, bytes);
    if let Some(text) = text_of(bytes) {
        law_text_is_read_exactly(bytes, text);
    }
}

/// A change of the composition means nothing if the composition cannot be read or is no text; and
/// a message about neither the composition nor a result means nothing.
pub proof fn law_unreadable_composition_means_nothing(
    context: ImmContext,
    lparam: isize,
    bytes: Seq<u8>,
)
    requires
        !has_bit(lparam, 0x800),
        has_bit(lparam, 0x8) ==> fails(context, 0x8) || holds(context, 0x8, bytes) && !is_text(
            bytes,
        ),
    ensures
        run(context, first_step(lparam), 6) == ImmStepView::Done(None),
{
    lemma_composition_bits(lparam);
    law_translation_is_reached(context, lparam);
    lemma_reads_what_is_held(context, 0x8, bytes);
    if let Some(text) = text_of(bytes) {
        law_text_is_read_exactly(bytes, text);
    }
}

/// A composition that has become empty has ended.
pub proof fn law_empty_composition_has_ended(context: ImmContext, lparam: isize)
    requires
        !has_bit(lparam, 0x800),
        has_bit(lparam, 0x8),
        holds(context, 0x8, seq![]),
    ensures
        run(context, first_step(lparam), 6) == ImmStepView::Done(
            Some(seq![TextInputView::CompositionEnd]),
        ),
{
    lemma_composition_bits(lparam);
    law_translation_is_reached(context, lparam);
    lemma_reads_what_is_held(context, 0x8, seq![]);
    law_composition_string_round_trip(seq![]);
    assert(bytes_of(encode_utf16(seq![])) =~= seq![]);
}

/// The attribute of the character with the index `k`: that of its first unit of UTF-16, if there
/// are as many.
pub open spec fn attribute_of(text: Seq<char>, attrs: Seq<u8>, k: int) -> Option<u8> {
    let unit = encode_utf16(text.take(k)).len() as int;
    if unit < attrs.len() {
        Some(attrs[unit])
    } else {
        None
    }
}

/// Whether the character is marked as part of the clause that is converted: 1 marks a clause that
/// has been converted, and 3 one that has not.
pub open spec fn is_marked(text: Seq<char>, attrs: Seq<u8>, k: int) -> bool {
    attribute_of(text, attrs, k) == Some(1u8) || attribute_of(text, attrs, k) == Some(3u8)
}

/// Whether the characters from `start` up to `end` are the first marked ones: `start` is the first
/// that is marked, and `end` the first after it that has an attribute and is not, or the end.
pub open spec fn is_clause(text: Seq<char>, attrs: Seq<u8>, start: int, end: int) -> bool {
    &&& 0 <= start < end <= text.len()
    &&& is_marked(text, attrs, start)
    &&& forall|k: int| 0 <= k < start ==> !is_marked(text, attrs, k)
    &&& forall|k: int|
        start < k < end ==> is_marked(text, attrs, k) || attribute_of(text, attrs, k) is None
    &&& end < text.len() ==> !is_marked(text, attrs, end) && attribute_of(text, attrs, end) is Some
}

/// Whether no character is marked.
pub open spec fn has_no_clause(text: Seq<char>, attrs: Seq<u8>) -> bool {
    forall|k: int| 0 <= k < text.len() ==> !is_marked(text, attrs, k)
}

/// The number of bytes of UTF-8 before the character with the index `k`.
pub open spec fn bytes_before(text: Seq<char>, k: int) -> nat {
    encode_utf8(text.take(k)).len()
}

/// The searches for the clause find its ends.
proof fn lemma_clause_start_is_first(text: Seq<char>, attrs: Seq<u8>, from: int)
    requires
        0 <= from,
    ensures
        match clause_start(text, attrs, from) {
            Some(start) => from <= start < text.len() && is_marked(text, attrs, start) && forall|
                k: int,
            |
                from <= k < start ==> !is_marked(text, attrs, k),
            None => forall|k: int| from <= k < text.len() ==> !is_marked(text, attrs, k),
        },
    decreases text.len() - from,
{
    if from < text.len() {
        lemma_clause_start_is_first(text, attrs, from + 1);
        assert(is_targeted(text, attrs, from) == is_marked(text, attrs, from));
    }
}

/// The search for the end of the clause finds it.
proof fn lemma_clause_end_is_first(text: Seq<char>, attrs: Seq<u8>, from: int)
    requires
        0 <= from <= text.len(),
    ensures
        ({
            let end = clause_end(text, attrs, from);
            &&& from <= end <= text.len()
            &&& forall|k: int|
                from <= k < end ==> is_marked(text, attrs, k) || attribute_of(text, attrs, k)
                    is None
            &&& end < text.len() ==> !is_marked(text, attrs, end) && attribute_of(text, attrs, end)
                is Some
        }),
    decreases text.len() - from,
{
    if from < text.len() {
        lemma_clause_end_is_first(text, attrs, from + 1);
        assert(is_untargeted(text, attrs, from) == (!is_marked(text, attrs, from)
            && attribute_of(text, attrs, from) is Some));
    }
}

/// The clause is selected by its first and last characters, and none is selected exactly if no
/// character is marked.
pub proof fn law_clause_is_what_is_marked(
    text: Seq<char>,
    attrs: Seq<u8>,
    start: int,
    end: int,
)
    ensures
        is_clause(text, attrs, start, end) ==> clause(text, attrs) == Some(
            (bytes_before(text, start), bytes_before(text, end)),
        ),
        has_no_clause(text, attrs) <==> clause(text, attrs) is None,
        !has_no_clause(text, attrs) ==> exists|start: int, end: int|
            is_clause(text, attrs, start, end),
{
    lemma_clause_start_is_first(text, attrs, 0);
    if let Some(first) = clause_start(text, attrs, 0) {
        lemma_clause_end_is_first(text, attrs, first + 1);
        let last = clause_end(text, attrs, first + 1);
        assert(is_clause(text, attrs, first, last));
        if is_clause(text, attrs, start, end) {
            assert(start == first) by {
                if start < first {
                    assert(!is_marked(text, attrs, start));
                }
                if first < start {
                    assert(!is_marked(text, attrs, first));
                }
            }
            assert(end == last) by {
                if end < last {
                    assert(is_marked(text, attrs, end) || attribute_of(text, attrs, end) is None);
                }
                if last < end {
                    assert(is_marked(text, attrs, last) || attribute_of(text, attrs, last) is None);
                }
            }
        }
    }
}

/// The cursor is as many characters into the text as the input context says, or at its end; a
/// negative number is no cursor.
pub proof fn law_cursor_counts_characters(text: Seq<char>, cursor: i32)
    ensures
        cursor < 0 ==> cursor_offset(text, cursor) is None,
        0 <= cursor <= text.len() ==> cursor_offset(text, cursor) == Some(
            bytes_before(text, cursor as int),
        ),
        cursor > text.len() ==> cursor_offset(text, cursor) == Some(encode_utf8(text).len()),
{
    lemma_offset_bounds(text, text.len() as int);
}

/// The translation of a composition with a selection: an update with it, unless an offset does not
/// fit 32 bits or the event model does not accept the selection.
pub open spec fn update_with(
    context: ImmContext,
    text: Seq<char>,
    start: nat,
    end: nat,
) -> ImmStepView {
    let range = TextRange { start: start as u32, end: end as u32 };
    if start < 0x1_0000_0000 && end < 0x1_0000_0000 && (context.select)(text, range) {
        ImmStepView::Done(Some(seq![TextInputView::CompositionUpdate(text, Some(range))]))
    } else {
        ImmStepView::Done(None)
    }
}

/// A change of the composition is translated to an update with exactly the text that the input
/// context holds, however long it is. The clause that its attributes mark is selected. If they mark
/// none, or there are none, the cursor is, and nothing if there is no cursor.
pub proof fn law_composition_reports_what_is_held(
    context: ImmContext,
    lparam: isize,
    text: Seq<char>,
    attrs: Seq<u8>,
    start: int,
    end: int,
)
    requires
        !has_bit(lparam, 0x800),
        has_bit(lparam, 0x8),
        holds(context, 0x8, bytes_of(encode_utf16(text))),
        text.len() > 0,
        holds(context, 0x10, attrs) || fails(context, 0x10) && attrs.len() == 0,
    ensures
        ({
            let done = run(context, first_step(lparam), 6);
            let cursor = (context.size)(0x80);
            &&& is_clause(text, attrs, start, end) ==> done == update_with(
                context,
                text,
                bytes_before(text, start),
                bytes_before(text, end),
            )
            &&& has_no_clause(text, attrs) ==> {
                &&& cursor < 0 ==> done == ImmStepView::Done(
                    Some(seq![TextInputView::CompositionUpdate(text, None)]),
                )
                &&& 0 <= cursor <= text.len() ==> done == update_with(
                    context,
                    text,
                    bytes_before(text, cursor as int),
                    bytes_before(text, cursor as int),
                )
                &&& cursor > text.len() ==> done == update_with(
                    context,
                    text,
                    encode_utf8(text).len(),
                    encode_utf8(text).len(),
                )
            }
        }),
{
    let cursor = (context.size)(0x80);
    lemma_composition_bits(lparam);
    law_translation_is_reached(context, lparam);
    lemma_reads_what_is_held(context, 0x8, bytes_of(encode_utf16(text)));
    lemma_reads_what_is_held(context, 0x10, attrs);
    law_composition_string_round_trip(text);
    if !holds(context, 0x10, attrs) {
        assert(attrs =~= seq![]);
    }
    assert(read_attributes(context.read(0x10)) == attrs);
    law_clause_is_what_is_marked(text, attrs, start, end);
    law_cursor_counts_characters(text, cursor);
}

/// Whatever update of a composition a message is translated to, its text is the one that the input
/// context holds.
pub proof fn law_update_has_the_text_that_is_held(
    context: ImmContext,
    lparam: isize,
    text: Seq<char>,
    reported: Seq<char>,
    selection: Option<TextRange>,
)
    requires
        !has_bit(lparam, 0x800),
        holds(context, 0x8, bytes_of(encode_utf16(text))),
        run(context, first_step(lparam), 6) == ImmStepView::Done(
            Some(seq![TextInputView::CompositionUpdate(reported, selection)]),
        ),
    ensures
        reported == text,
{
    lemma_composition_bits(lparam);
    law_translation_is_reached(context, lparam);
    lemma_reads_what_is_held(context, 0x8, bytes_of(encode_utf16(text)));
    law_composition_string_round_trip(text);
    assert(context.composed() == Some(
        seq![TextInputView::CompositionUpdate(reported, selection)],
    ));
    assert(context.composed()->0[0] == TextInputView::CompositionUpdate(reported, selection));
}

/// What a state waits for is asked under the index of what is read.
pub proof fn law_states_ask_for_what_they_need(
    text: Seq<char>,
    size: i32,
    range: TextRange,
)
    ensures
        ImmStateView::Sizing(ReadingView::Result).query() == ImmQuery::Size(0x800),
        ImmStateView::Sizing(ReadingView::Composition).query() == ImmQuery::Size(0x8),
        ImmStateView::Sizing(ReadingView::Attributes(text)).query() == ImmQuery::Size(0x10),
        ImmStateView::Filling(ReadingView::Result, size).query() == ImmQuery::Data(0x800, size),
        ImmStateView::Filling(ReadingView::Composition, size).query() == ImmQuery::Data(0x8, size),
        ImmStateView::Filling(ReadingView::Attributes(text), size).query() == ImmQuery::Data(
            0x10,
            size,
        ),
        ImmStateView::Cursor(text).query() == ImmQuery::Size(0x80),
        ImmStateView::Selecting(text, range).query() == ImmQuery::Select(range),
{
}

/// A selection is reported with its text if the event model accepts it, and the message means
/// nothing if not; what was read is taken without regard to the size of the buffer.
pub proof fn law_selection_is_reported_as_accepted(
    text: Seq<char>,
    range: TextRange,
    reading: ReadingView,
    size: i32,
    other: i32,
    answer: ImmAnswerView,
)
    ensures
        ImmStateView::Selecting(text, range).next(ImmAnswerView::Select(true))
            == ImmStepView::Done(
            Some(seq![TextInputView::CompositionUpdate(text, Some(range))]),
        ),
        ImmStateView::Selecting(text, range).next(ImmAnswerView::Select(false))
            == ImmStepView::Done(None),
        ImmStateView::Filling(reading, size).next(answer) == ImmStateView::Filling(
            reading,
            other,
        ).next(answer),
{
}

} // verus!
