//! Reading of compositions.

use ui_events_windows::event::{CompositionState, TextInputEvent, TextRange};
use ui_events_windows::text::{
    composition_string, cursor_boundary, from_imm, target_clause, ImmAnswer, ImmQuery, ImmStep,
};
use ui_events_windows::utf16::{characters, text_from_utf16, utf16_len, utf8_len};
use ui_events_windows::win32::{GCS_COMPATTR, GCS_COMPSTR, GCS_CURSORPOS, GCS_RESULTSTR};

/// An input context with fixed contents; `None` is what it cannot deliver.
struct Context {
    result: Option<Vec<u8>>,
    composition: Option<Vec<u8>>,
    attributes: Option<Vec<u8>>,
    cursor: i32,
    accepts: bool,
    asked: Vec<ImmQuery>,
}

impl Context {
    fn new() -> Self {
        Context {
            result: None,
            composition: None,
            attributes: None,
            cursor: -1,
            accepts: true,
            asked: Vec::new(),
        }
    }

    fn contents(&self, mode: u32) -> &Option<Vec<u8>> {
        match mode {
            GCS_RESULTSTR => &self.result,
            GCS_COMPSTR => &self.composition,
            GCS_COMPATTR => &self.attributes,
            _ => panic!("unexpected index {mode}"),
        }
    }

    fn answer(&self, query: ImmQuery) -> ImmAnswer {
        match query {
            ImmQuery::Size(GCS_CURSORPOS) => ImmAnswer::Size(self.cursor),
            ImmQuery::Size(mode) => ImmAnswer::Size(match self.contents(mode) {
                Some(data) => data.len() as i32,
                None => -1,
            }),
            ImmQuery::Data(mode, size) => {
                let data = self.contents(mode).clone().unwrap();
                assert_eq!(data.len() as i32, size);
                ImmAnswer::Data(size, data)
            }
            ImmQuery::Select(_) => ImmAnswer::Select(self.accepts),
        }
    }

    fn read(&mut self, lparam: isize) -> Option<Vec<TextInputEvent>> {
        let mut step = from_imm(lparam);
        loop {
            match step {
                ImmStep::Done(events) => return events,
                ImmStep::Ask(state) => {
                    let query = state.query();
                    self.asked.push(query);
                    let answer = self.answer(query);
                    step = state.resume(answer);
                }
            }
        }
    }
}

fn wide(text: &str) -> Vec<u8> {
    text.encode_utf16().flat_map(u16::to_le_bytes).collect()
}

fn update(text: &str, selection: Option<(u32, u32)>) -> Option<Vec<TextInputEvent>> {
    Some(vec![TextInputEvent::CompositionUpdate(CompositionState {
        text: text.to_string(),
        selection: selection.map(|(start, end)| TextRange { start, end }),
    })])
}

#[test]
fn utf16_round_trip() {
    for text in ["", "a", "héllo", "日本語", "a🦀b", "\u{10FFFF}\u{10000}\u{FFFF}\u{D7FF}\u{E000}"] {
        let units: Vec<u16> = text.encode_utf16().collect();
        assert_eq!(text_from_utf16(&units), Some(text.to_string()));
        assert_eq!(composition_string(&wide(text)), Some(text.to_string()));
    }
}

#[test]
fn unpaired_surrogates_are_rejected() {
    assert_eq!(text_from_utf16(&vec![0x61, 0xD83E]), None);
    assert_eq!(text_from_utf16(&vec![0xD83E, 0x61]), None);
    assert_eq!(text_from_utf16(&vec![0xDD80, 0x61]), None);
    assert_eq!(text_from_utf16(&vec![0xD83E, 0xD83E]), None);
}

#[test]
fn decoding_agrees_with_the_standard_library() {
    let samples: [u16; 9] = [0, 0x61, 0xD7FF, 0xD800, 0xDBFF, 0xDC00, 0xDFFF, 0xE000, 0xFFFF];
    for a in samples {
        for b in samples {
            for c in samples {
                let units = vec![a, b, c];
                assert_eq!(text_from_utf16(&units), String::from_utf16(&units).ok());
            }
        }
    }
}

#[test]
fn odd_byte_counts_are_rejected() {
    assert_eq!(composition_string(&vec![0x61, 0, 0x62]), None);
    assert_eq!(composition_string(&vec![]), Some(String::new()));
    assert_eq!(composition_string(&vec![0x42, 0x30]), Some("あ".to_string()));
}

#[test]
fn lengths_of_characters() {
    for c in ['a', '\u{7F}', '\u{80}', '\u{7FF}', '\u{800}', '\u{FFFF}', '\u{10000}', '🦀'] {
        assert_eq!(utf8_len(c), c.len_utf8());
        assert_eq!(utf16_len(c), c.len_utf16());
    }
    assert_eq!(characters("a🦀"), vec!['a', '🦀']);
}

#[test]
fn clause_runs_to_the_next_untargeted_character() {
    let text = "あ🦀いう".to_string();
    // One attribute for each UTF-16 unit: the crab has two.
    assert_eq!(target_clause(&text, &vec![0, 1, 1, 3, 2]), Some((3, 10)));
    assert_eq!(target_clause(&text, &vec![1, 0, 0, 1, 1]), Some((0, 3)));
    assert_eq!(target_clause(&text, &vec![0, 2, 2, 0, 0]), None);
}

#[test]
fn clause_without_end_runs_to_the_end_of_the_text() {
    let text = "abcd".to_string();
    assert_eq!(target_clause(&text, &vec![0, 0, 3, 3]), Some((2, 4)));
    // The attributes stop before the text does.
    assert_eq!(target_clause(&text, &vec![0, 1]), Some((1, 4)));
    assert_eq!(target_clause(&text, &vec![0]), None);
    assert_eq!(target_clause(&text, &vec![]), None);
    assert_eq!(target_clause(&String::new(), &vec![1]), None);
}

#[test]
fn cursor_counts_characters() {
    let text = "あ🦀い".to_string();
    assert_eq!(cursor_boundary(&text, 0), Some(0));
    assert_eq!(cursor_boundary(&text, 1), Some(3));
    assert_eq!(cursor_boundary(&text, 2), Some(7));
    assert_eq!(cursor_boundary(&text, 3), Some(10));
    assert_eq!(cursor_boundary(&text, 9), Some(10));
    assert_eq!(cursor_boundary(&text, -1), None);
}

#[test]
fn committed_text_is_inserted() {
    let mut context = Context::new();
    context.result = Some(wide("日本"));
    // A commit is read before a composition, even if both changed.
    let events = context.read((GCS_RESULTSTR | GCS_COMPSTR) as isize);
    assert_eq!(events, Some(vec![TextInputEvent::Insert("日本".to_string())]));
    assert_eq!(
        context.asked,
        vec![ImmQuery::Size(GCS_RESULTSTR), ImmQuery::Data(GCS_RESULTSTR, 4)]
    );
}

#[test]
fn empty_or_unreadable_commit_means_nothing() {
    let mut context = Context::new();
    assert_eq!(context.read(GCS_RESULTSTR as isize), None);
    context.result = Some(Vec::new());
    assert_eq!(context.read(GCS_RESULTSTR as isize), None);
    context.result = Some(vec![0x61]);
    assert_eq!(context.read(GCS_RESULTSTR as isize), None);
    context.result = Some(vec![0x00, 0xD8]);
    assert_eq!(context.read(GCS_RESULTSTR as isize), None);
}

#[test]
fn composition_with_clause() {
    let mut context = Context::new();
    context.composition = Some(wide("あい"));
    context.attributes = Some(vec![0, 1]);
    let events = context.read(GCS_COMPSTR as isize);
    assert_eq!(events, update("あい", Some((3, 6))));
    assert_eq!(
        context.asked,
        vec![
            ImmQuery::Size(GCS_COMPSTR),
            ImmQuery::Data(GCS_COMPSTR, 4),
            ImmQuery::Size(GCS_COMPATTR),
            ImmQuery::Data(GCS_COMPATTR, 2),
            ImmQuery::Select(TextRange { start: 3, end: 6 }),
        ]
    );
}

#[test]
fn composition_with_cursor() {
    let mut context = Context::new();
    context.composition = Some(wide("あい"));
    context.attributes = Some(vec![0, 0]);
    context.cursor = 1;
    assert_eq!(context.read(GCS_COMPSTR as isize), update("あい", Some((3, 3))));
    assert_eq!(context.asked.len(), 6);
    assert_eq!(context.asked[4], ImmQuery::Size(GCS_CURSORPOS));
}

#[test]
fn composition_without_attributes_or_cursor() {
    let mut context = Context::new();
    context.composition = Some(wide("x"));
    assert_eq!(context.read(GCS_COMPSTR as isize), update("x", None));
    context.cursor = 1;
    assert_eq!(context.read(GCS_COMPSTR as isize), update("x", Some((1, 1))));
}

#[test]
fn empty_composition_has_ended() {
    let mut context = Context::new();
    context.composition = Some(Vec::new());
    context.cursor = 0;
    let events = context.read(GCS_COMPSTR as isize);
    assert_eq!(events, Some(vec![TextInputEvent::CompositionEnd]));
    // The attributes and the cursor are asked for all the same.
    assert_eq!(
        context.asked,
        vec![
            ImmQuery::Size(GCS_COMPSTR),
            ImmQuery::Size(GCS_COMPATTR),
            ImmQuery::Size(GCS_CURSORPOS),
        ]
    );
}

#[test]
fn refused_selection_means_nothing() {
    let mut context = Context::new();
    context.composition = Some(wide("x"));
    context.cursor = 0;
    context.accepts = false;
    assert_eq!(context.read(GCS_COMPSTR as isize), None);
}

#[test]
fn other_changes_mean_nothing() {
    let mut context = Context::new();
    assert_eq!(context.read(GCS_CURSORPOS as isize), None);
    assert_eq!(context.read(0), None);
    assert!(context.asked.is_empty());
}

#[test]
fn data_is_cut_or_filled_to_the_reported_size() {
    let start = || match from_imm(GCS_RESULTSTR as isize) {
        ImmStep::Ask(state) => match state.resume(ImmAnswer::Size(4)) {
            ImmStep::Ask(state) => state,
            ImmStep::Done(_) => panic!("nothing was read"),
        },
        ImmStep::Done(_) => panic!("nothing was asked"),
    };
    let insert = |text: &str| {
        ImmStep::Done(Some(vec![TextInputEvent::Insert(text.to_string())]))
    };
    assert_eq!(start().resume(ImmAnswer::Data(2, wide("ab"))), insert("a"));
    assert_eq!(start().resume(ImmAnswer::Data(6, wide("ab"))), insert("ab\0"));
    assert_eq!(start().resume(ImmAnswer::Data(0, wide("ab"))), ImmStep::Done(None));
    assert_eq!(start().resume(ImmAnswer::Data(-1, wide("ab"))), ImmStep::Done(None));
}
