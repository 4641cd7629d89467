//! What happens after a recording stops, as a state machine: the caller
//! performs each effect (network requests, keyboard, clipboard, history,
//! events) and hands back what came of it; every decision is taken here.

use vstd::prelude::*;

use crate::audio::{samples_to_wav, wav_encodable, wav_mono16, Recording};
use crate::config::Config;
use crate::dictionary::{apply_dictionary, dictionary_result, DictionaryEntry};
use crate::history::EntryType;
use crate::session::{edit_history_seq, edit_history_text, should_polish, ActiveMode};
use crate::text::{concat, owned, trim, trim_seq};

verus! {

/// Where the processing of one session stands.
#[derive(Debug, PartialEq, Eq)]
pub enum Stage {
    /// Waiting for the transcript of the recording.
    Recognizing(EntryType),
    /// Dictation: waiting for the language model to polish `raw`.
    Polishing { raw: String },
    /// Dictation: waiting for `text` to be typed.
    Typing { raw: String, text: String },
    /// Editing: waiting for the current selection.
    Capturing { instruction: String },
    /// Editing: waiting for the language model's result.
    Editing { instruction: String, selected: Option<String> },
    /// Editing: waiting for the keyboard to be opened.
    Opening { instruction: String, selected: Option<String>, result: String },
    /// Editing: waiting for the result to be typed.
    Inserting { instruction: String, selected: Option<String>, result: String },
    /// Nothing left to do.
    Finished,
}

/// What came of the last effect that has an outcome.
#[derive(Debug, PartialEq, Eq)]
pub enum StageEvent {
    /// The speech service's transcript, or its error text.
    Transcript(Result<String, String>),
    /// The polished text, or the error text.
    Polished(Result<String, String>),
    /// The selected text (`None` when nothing was selected), or the error text.
    Selection(Result<Option<String>, String>),
    /// The edited text, or the error text.
    Edited(Result<String, String>),
    /// Whether the keyboard could be opened.
    KeyboardOpened(Result<(), String>),
    /// Whether the text could be typed.
    Typed(Result<(), String>),
}

/// One thing for the caller to do, in the order given.
#[derive(Debug, PartialEq, Eq)]
pub enum Effect {
    /// Ask the language model to polish the text (outcome: `Polished`).
    Polish(String),
    /// Copy the current selection, saving the clipboard (outcome: `Selection`).
    CaptureSelection,
    /// Ask the language model to apply the instruction (outcome: `Edited`).
    RequestEdit { instruction: String, selected: Option<String> },
    /// Open the keyboard and release held modifiers (outcome: `KeyboardOpened`).
    OpenKeyboard,
    /// Press Delete once, removing the selection.
    DeleteSelection,
    /// Type the text at the cursor, Return after it when asked (outcome: `Typed`).
    TypeText { text: String, auto_enter: bool },
    /// Put the saved clipboard content back.
    RestoreClipboard,
    /// Report an error to the front end.
    Report { code: String, message: String },
    /// Save a history entry with these texts; `word_count` is the number of
    /// characters of `text`.
    Record { raw: String, text: String, kind: EntryType, word_count: usize },
    /// Show the result in the front end.
    Deliver { text: String, kind: EntryType },
    /// Tell the front end the session is over.
    Idle,
}

/// `Stage` with its texts as character sequences.
pub enum StageModel {
    Recognizing(EntryType),
    Polishing(Seq<char>),
    Typing(Seq<char>, Seq<char>),
    Capturing(Seq<char>),
    Editing(Seq<char>, Option<Seq<char>>),
    Opening(Seq<char>, Option<Seq<char>>, Seq<char>),
    Inserting(Seq<char>, Option<Seq<char>>, Seq<char>),
    Finished,
}

/// `StageEvent` with its texts as character sequences.
pub enum EventModel {
    Transcript(Result<Seq<char>, Seq<char>>),
    Polished(Result<Seq<char>, Seq<char>>),
    Selection(Result<Option<Seq<char>>, Seq<char>>),
    Edited(Result<Seq<char>, Seq<char>>),
    KeyboardOpened(Result<(), Seq<char>>),
    Typed(Result<(), Seq<char>>),
}

/// `Effect` with its texts as character sequences.
pub enum EffectModel {
    Polish(Seq<char>),
    CaptureSelection,
    RequestEdit(Seq<char>, Option<Seq<char>>),
    OpenKeyboard,
    DeleteSelection,
    TypeText(Seq<char>, bool),
    RestoreClipboard,
    Report(Seq<char>, Seq<char>),
    Record(Seq<char>, Seq<char>, EntryType, nat),
    Deliver(Seq<char>, EntryType),
    Idle,
}

/// An optional text as an optional character sequence.
pub open spec fn opt_view(o: Option<String>) -> Option<Seq<char>> {
    match o {
        Some(s) => Some(s@),
        None => None,
    }
}

/// A text result with its texts as character sequences.
pub open spec fn text_result_view(r: Result<String, String>) -> Result<Seq<char>, Seq<char>> {
    match r {
        Ok(s) => Ok(s@),
        Err(e) => Err(e@),
    }
}

/// A done-or-failed result with its error as a character sequence.
pub open spec fn unit_result_view(r: Result<(), String>) -> Result<(), Seq<char>> {
    match r {
        Ok(_) => Ok(()),
        Err(e) => Err(e@),
    }
}

impl View for Stage {
    type V = StageModel;

    open spec fn view(&self) -> StageModel {
        match self {
            Stage::Recognizing(k) => StageModel::Recognizing(*k),
            Stage::Polishing { raw } => StageModel::Polishing(raw@),
            Stage::Typing { raw, text } => StageModel::Typing(raw@, text@),
            Stage::Capturing { instruction } => StageModel::Capturing(instruction@),
            Stage::Editing { instruction, selected } => StageModel::Editing(instruction@, opt_view(*selected)),
            Stage::Opening { instruction, selected, result } => StageModel::Opening(
                instruction@,
                opt_view(*selected),
                result@,
            ),
            Stage::Inserting { instruction, selected, result } => StageModel::Inserting(
                instruction@,
                opt_view(*selected),
                result@,
            ),
            Stage::Finished => StageModel::Finished,
        }
    }
}

impl View for StageEvent {
    type V = EventModel;

    open spec fn view(&self) -> EventModel {
        match self {
            StageEvent::Transcript(r) => EventModel::Transcript(text_result_view(*r)),
            StageEvent::Polished(r) => EventModel::Polished(text_result_view(*r)),
            StageEvent::Selection(r) => EventModel::Selection(
                match r {
                    Ok(o) => Ok(opt_view(*o)),
                    Err(e) => Err(e@),
                },
            ),
            StageEvent::Edited(r) => EventModel::Edited(text_result_view(*r)),
            StageEvent::KeyboardOpened(r) => EventModel::KeyboardOpened(unit_result_view(*r)),
            StageEvent::Typed(r) => EventModel::Typed(unit_result_view(*r)),
        }
    }
}

impl View for Effect {
    type V = EffectModel;

    open spec fn view(&self) -> EffectModel {
        match self {
            Effect::Polish(t) => EffectModel::Polish(t@),
            Effect::CaptureSelection => EffectModel::CaptureSelection,
            Effect::RequestEdit { instruction, selected } => EffectModel::RequestEdit(
                instruction@,
                opt_view(*selected),
            ),
            Effect::OpenKeyboard => EffectModel::OpenKeyboard,
            Effect::DeleteSelection => EffectModel::DeleteSelection,
            Effect::TypeText { text, auto_enter } => EffectModel::TypeText(text@, *auto_enter),
            Effect::RestoreClipboard => EffectModel::RestoreClipboard,
            Effect::Report { code, message } => EffectModel::Report(code@, message@),
            Effect::Record { raw, text, kind, word_count } => EffectModel::Record(
                raw@,
                text@,
                *kind,
                *word_count as nat,
            ),
            Effect::Deliver { text, kind } => EffectModel::Deliver(text@, *kind),
            Effect::Idle => EffectModel::Idle,
        }
    }
}

/// The effects as models, in order.
pub open spec fn effects_view(v: Seq<Effect>) -> Seq<EffectModel> {
    v.map_values(|e: Effect| e@)
}

/// The error code of a failed transcription: for dictation or for an edit instruction.
pub open spec fn transcript_failure_code(kind: EntryType) -> Seq<char> {
    match kind {
        EntryType::Transcribe => "transcription_failed"@,
        EntryType::Edit => "instruction_recognition_failed"@,
    }
}

/// The transitions. `dictionary`, `polish` (the output mode is "polish")
/// and `auto_enter` come from the settings. A pair of stage and event that
/// does not belong together leaves the stage as it is, with no effect.
pub open spec fn step_model(
    dictionary: Seq<DictionaryEntry>,
    polish: bool,
    auto_enter: bool,
    stage: StageModel,
    event: EventModel,
) -> (StageModel, Seq<EffectModel>) {
    match (stage, event) {
        (StageModel::Recognizing(kind), EventModel::Transcript(Ok(t))) => {
            let text = dictionary_result(t, dictionary);
            match kind {
                EntryType::Transcribe => if polish {
                    (StageModel::Polishing(text), seq![EffectModel::Polish(text)])
                } else {
                    (StageModel::Typing(text, text), seq![EffectModel::TypeText(text, auto_enter)])
                },
                EntryType::Edit => if trim_seq(text).len() == 0 {
                    (StageModel::Finished, seq![EffectModel::Idle])
                } else {
                    (StageModel::Capturing(text), seq![EffectModel::CaptureSelection])
                },
            }
        },
        (StageModel::Recognizing(kind), EventModel::Transcript(Err(e))) => (
            StageModel::Finished,
            seq![EffectModel::Report(transcript_failure_code(kind), e), EffectModel::Idle],
        ),
        (StageModel::Polishing(raw), EventModel::Polished(r)) => {
            let text = match r {
                Ok(p) => p,
                Err(_) => raw,
            };
            (StageModel::Typing(raw, text), seq![EffectModel::TypeText(text, auto_enter)])
        },
        (StageModel::Typing(raw, text), EventModel::Typed(r)) => {
            let finish = seq![
                EffectModel::Record(raw, text, EntryType::Transcribe, text.len()),
                EffectModel::Deliver(text, EntryType::Transcribe),
                EffectModel::Idle,
            ];
            match r {
                Ok(_) => (StageModel::Finished, finish),
                Err(e) => (
                    StageModel::Finished,
                    seq![EffectModel::Report("input_failed"@, "无法输入文字: "@ + e)] + finish,
                ),
            }
        },
        (StageModel::Capturing(i), EventModel::Selection(Ok(s))) => (
            StageModel::Editing(i, s),
            seq![EffectModel::RequestEdit(i, s)],
        ),
        (StageModel::Capturing(_), EventModel::Selection(Err(e))) => (
            StageModel::Finished,
            seq![EffectModel::Report("clipboard_capture_failed"@, e), EffectModel::Idle],
        ),
        (StageModel::Editing(i, s), EventModel::Edited(Ok(r))) => (
            StageModel::Opening(i, s, r),
            seq![EffectModel::OpenKeyboard],
        ),
        (StageModel::Editing(_, _), EventModel::Edited(Err(e))) => (
            StageModel::Finished,
            seq![EffectModel::Report("edit_failed"@, e), EffectModel::Idle, EffectModel::RestoreClipboard],
        ),
        (StageModel::Opening(i, s, r), EventModel::KeyboardOpened(Ok(_))) => (
            StageModel::Inserting(i, s, r),
            if s is Some {
                seq![EffectModel::DeleteSelection, EffectModel::TypeText(r, false)]
            } else {
                seq![EffectModel::TypeText(r, false)]
            },
        ),
        (StageModel::Opening(_, _, _), EventModel::KeyboardOpened(Err(e))) => (
            StageModel::Finished,
            seq![
                EffectModel::Report("input_failed"@, "无法创建键盘输入: "@ + e),
                EffectModel::Idle,
                EffectModel::RestoreClipboard,
            ],
        ),
        (StageModel::Inserting(i, s, r), EventModel::Typed(Ok(_))) => (
            StageModel::Finished,
            seq![
                EffectModel::RestoreClipboard,
                EffectModel::RestoreClipboard,
                EffectModel::Record(edit_history_seq(i, s), r, EntryType::Edit, r.len()),
                EffectModel::Deliver(r, EntryType::Edit),
                EffectModel::Idle,
            ],
        ),
        (StageModel::Inserting(_, _, _), EventModel::Typed(Err(e))) => (
            StageModel::Finished,
            seq![
                EffectModel::Report("input_failed"@, "无法输入编辑结果: "@ + e),
                EffectModel::Idle,
                EffectModel::RestoreClipboard,
            ],
        ),
        (other, _) => (other, seq![]),
    }
}

fn fx1(a: Effect) -> (r: Vec<Effect>)
    ensures
        effects_view(r@) == seq![a@],
{
    let ghost ga = a;
    let mut v: Vec<Effect> = Vec::new();
    v.push(a);
    assert(effects_view(v@) =~= seq![ga@]);
    v
}

fn fx2(a: Effect, b: Effect) -> (r: Vec<Effect>)
    ensures
        effects_view(r@) == seq![a@, b@],
{
    let ghost (ga, gb) = (a, b);
    let mut v: Vec<Effect> = Vec::new();
    v.push(a);
    v.push(b);
    assert(effects_view(v@) =~= seq![ga@, gb@]);
    v
}

fn fx3(a: Effect, b: Effect, c: Effect) -> (r: Vec<Effect>)
    ensures
        effects_view(r@) == seq![a@, b@, c@],
{
    let ghost (ga, gb, gc) = (a, b, c);
    let mut v: Vec<Effect> = Vec::new();
    v.push(a);
    v.push(b);
    v.push(c);
    assert(effects_view(v@) =~= seq![ga@, gb@, gc@]);
    v
}

fn fx4(a: Effect, b: Effect, c: Effect, d: Effect) -> (r: Vec<Effect>)
    ensures
        effects_view(r@) == seq![a@, b@, c@, d@],
{
    let ghost (ga, gb, gc, gd) = (a, b, c, d);
    let mut v: Vec<Effect> = Vec::new();
    v.push(a);
    v.push(b);
    v.push(c);
    v.push(d);
    assert(effects_view(v@) =~= seq![ga@, gb@, gc@, gd@]);
    v
}

fn fx5(a: Effect, b: Effect, c: Effect, d: Effect, e: Effect) -> (r: Vec<Effect>)
    ensures
        effects_view(r@) == seq![a@, b@, c@, d@, e@],
{
    let ghost (ga, gb, gc, gd, ge) = (a, b, c, d, e);
    let mut v: Vec<Effect> = Vec::new();
    v.push(a);
    v.push(b);
    v.push(c);
    v.push(d);
    v.push(e);
    assert(effects_view(v@) =~= seq![ga@, gb@, gc@, gd@, ge@]);
    v
}

fn copy_opt(o: &Option<String>) -> (r: Option<String>)
    ensures
        opt_view(r) == opt_view(*o),
{
    match o {
        Some(s) => Some(s.clone()),
        None => None,
    }
}

fn report(code: &str, message: String) -> (r: Effect)
    ensures
        r@ == EffectModel::Report(code@, message@),
{
    Effect::Report { code: owned(code), message }
}

/// One transition of the processing of a session: the next stage and the
/// effects to perform, exactly as `step_model` says for the settings in `config`.
pub fn advance(config: &Config, stage: Stage, event: StageEvent) -> (r: (Stage, Vec<Effect>))
    ensures
        r.0@ == step_model(
            config.dictionary@,
            config.output_mode@ == "polish"@,
            config.auto_enter,
            stage@,
            event@,
        ).0,
        effects_view(r.1@) == step_model(
            config.dictionary@,
            config.output_mode@ == "polish"@,
            config.auto_enter,
            stage@,
            event@,
        ).1,
{
    proof {
        reveal_strlit("polish");
    }
    match stage {
        Stage::Recognizing(kind) => match event {
            StageEvent::Transcript(Ok(t)) => {
                let text = apply_dictionary(t.as_str(), config.dictionary.as_slice());
                match kind {
                    EntryType::Transcribe => {
                        if should_polish(config.output_mode.as_str()) {
                            let fx = fx1(Effect::Polish(text.clone()));
                            (Stage::Polishing { raw: text }, fx)
                        } else {
                            let fx = fx1(Effect::TypeText { text: text.clone(), auto_enter: config.auto_enter });
                            (Stage::Typing { raw: text.clone(), text }, fx)
                        }
                    },
                    EntryType::Edit => {
                        let trimmed = trim(text.as_str());
                        if trimmed.as_str().is_empty() {
                            (Stage::Finished, fx1(Effect::Idle))
                        } else {
                            (Stage::Capturing { instruction: text }, fx1(Effect::CaptureSelection))
                        }
                    },
                }
            },
            StageEvent::Transcript(Err(e)) => {
                let code = match kind {
                    EntryType::Transcribe => "transcription_failed",
                    EntryType::Edit => "instruction_recognition_failed",
                };
                proof {
                    reveal_strlit("transcription_failed");
                    reveal_strlit("instruction_recognition_failed");
                }
                (Stage::Finished, fx2(report(code, e), Effect::Idle))
            },
            _ => (Stage::Recognizing(kind), Vec::new()),
        },
        Stage::Polishing { raw } => match event {
            StageEvent::Polished(res) => {
                let text = match res {
                    Ok(p) => p,
                    Err(_) => raw.clone(),
                };
                let fx = fx1(Effect::TypeText { text: text.clone(), auto_enter: config.auto_enter });
                (Stage::Typing { raw, text }, fx)
            },
            _ => (Stage::Polishing { raw }, Vec::new()),
        },
        Stage::Typing { raw, text } => match event {
            StageEvent::Typed(res) => {
                let word_count = text.as_str().unicode_len();
                let record = Effect::Record { raw, text: text.clone(), kind: EntryType::Transcribe, word_count };
                let deliver = Effect::Deliver { text, kind: EntryType::Transcribe };
                match res {
                    Ok(_) => (Stage::Finished, fx3(record, deliver, Effect::Idle)),
                    Err(e) => {
                        let message = concat("无法输入文字: ", e.as_str());
                        (Stage::Finished, fx4(report("input_failed", message), record, deliver, Effect::Idle))
                    },
                }
            },
            _ => (Stage::Typing { raw, text }, Vec::new()),
        },
        Stage::Capturing { instruction } => match event {
            StageEvent::Selection(Ok(selected)) => {
                let fx = fx1(Effect::RequestEdit { instruction: instruction.clone(), selected: copy_opt(&selected) });
                (Stage::Editing { instruction, selected }, fx)
            },
            StageEvent::Selection(Err(e)) => {
                (Stage::Finished, fx2(report("clipboard_capture_failed", e), Effect::Idle))
            },
            _ => (Stage::Capturing { instruction }, Vec::new()),
        },
        Stage::Editing { instruction, selected } => match event {
            StageEvent::Edited(Ok(result)) => {
                (Stage::Opening { instruction, selected, result }, fx1(Effect::OpenKeyboard))
            },
            StageEvent::Edited(Err(e)) => {
                (Stage::Finished, fx3(report("edit_failed", e), Effect::Idle, Effect::RestoreClipboard))
            },
            _ => (Stage::Editing { instruction, selected }, Vec::new()),
        },
        Stage::Opening { instruction, selected, result } => match event {
            StageEvent::KeyboardOpened(Ok(_)) => {
                let typing = Effect::TypeText { text: result.clone(), auto_enter: false };
                let fx = if selected.is_some() {
                    fx2(Effect::DeleteSelection, typing)
                } else {
                    fx1(typing)
                };
                (Stage::Inserting { instruction, selected, result }, fx)
            },
            StageEvent::KeyboardOpened(Err(e)) => {
                let message = concat("无法创建键盘输入: ", e.as_str());
                (Stage::Finished, fx3(report("input_failed", message), Effect::Idle, Effect::RestoreClipboard))
            },
            _ => (Stage::Opening { instruction, selected, result }, Vec::new()),
        },
        Stage::Inserting { instruction, selected, result } => match event {
            StageEvent::Typed(Ok(_)) => {
                let raw = match &selected {
                    Some(s) => edit_history_text(instruction.as_str(), Some(s.as_str())),
                    None => edit_history_text(instruction.as_str(), None),
                };
                let word_count = result.as_str().unicode_len();
                let record = Effect::Record { raw, text: result.clone(), kind: EntryType::Edit, word_count };
                let deliver = Effect::Deliver { text: result, kind: EntryType::Edit };
                let fx = fx5(Effect::RestoreClipboard, Effect::RestoreClipboard, record, deliver, Effect::Idle);
                (Stage::Finished, fx)
            },
            StageEvent::Typed(Err(e)) => {
                let message = concat("无法输入编辑结果: ", e.as_str());
                (Stage::Finished, fx3(report("input_failed", message), Effect::Idle, Effect::RestoreClipboard))
            },
            _ => (Stage::Inserting { instruction, selected, result }, Vec::new()),
        },
        Stage::Finished => (Stage::Finished, Vec::new()),
    }
}

/// Every reported error ends the session: the next stage is `Finished` and
/// the front end is told it is idle after the report.
pub proof fn law_failure_ends_in_idle(
    dictionary: Seq<DictionaryEntry>,
    polish: bool,
    auto_enter: bool,
    stage: StageModel,
    event: EventModel,
    i: int,
)
    requires
        0 <= i < step_model(dictionary, polish, auto_enter, stage, event).1.len(),
        step_model(dictionary, polish, auto_enter, stage, event).1[i] is Report,
    ensures
        step_model(dictionary, polish, auto_enter, stage, event).0 is Finished,
        exists|j: int|
            i < j < step_model(dictionary, polish, auto_enter, stage, event).1.len()
                && #[trigger] step_model(dictionary, polish, auto_enter, stage, event).1[j] is Idle,
{
    let fx = step_model(dictionary, polish, auto_enter, stage, event).1;
    if fx.len() > i + 1 && fx[i + 1] is Idle {
        assert(fx[i + 1] is Idle);
    } else {
        assert(fx[fx.len() - 1] is Idle);
    }
}

/// Whenever processing ends, the front end is told the session is idle.
pub proof fn law_end_is_announced(
    dictionary: Seq<DictionaryEntry>,
    polish: bool,
    auto_enter: bool,
    stage: StageModel,
    event: EventModel,
)
    requires
        !(stage is Finished),
        step_model(dictionary, polish, auto_enter, stage, event).0 is Finished,
    ensures
        step_model(dictionary, polish, auto_enter, stage, event).1.contains(EffectModel::Idle),
{
    let fx = step_model(dictionary, polish, auto_enter, stage, event).1;
    if fx.len() > 1 && fx[1] is Idle {
        assert(fx[1] == EffectModel::Idle);
    } else if fx.len() > 0 && fx[0] is Idle {
        assert(fx[0] == EffectModel::Idle);
    } else {
        assert(fx[fx.len() - 1] == EffectModel::Idle);
    }
}

/// The saved clipboard is put back on every way an edit can end once the
/// selection was captured, and never before it was captured.
pub proof fn law_clipboard_restored(
    dictionary: Seq<DictionaryEntry>,
    polish: bool,
    auto_enter: bool,
    stage: StageModel,
    event: EventModel,
)
    ensures
        ({
            let (next, fx) = step_model(dictionary, polish, auto_enter, stage, event);
            &&& (stage is Editing || stage is Opening || stage is Inserting) && next is Finished
                ==> fx.contains(EffectModel::RestoreClipboard)
            &&& fx.contains(EffectModel::RestoreClipboard) ==> (stage is Editing || stage is Opening
                || stage is Inserting)
        }),
{
    let (next, fx) = step_model(dictionary, polish, auto_enter, stage, event);
    if (stage is Editing || stage is Opening || stage is Inserting) && next is Finished {
        if fx[0] is RestoreClipboard {
            assert(fx[0] == EffectModel::RestoreClipboard);
        } else {
            assert(fx[2] == EffectModel::RestoreClipboard);
        }
    }
    if fx.contains(EffectModel::RestoreClipboard) {
        let k = choose|k: int| 0 <= k < fx.len() && fx[k] == EffectModel::RestoreClipboard;
        assert(fx[k] == EffectModel::RestoreClipboard);
    }
}

/// What is saved in the history is what is shown as the result: a step that
/// records an entry also delivers its text, for the same kind of session,
/// and the entry's word count is the number of characters of that text.
pub proof fn law_recorded_is_delivered(
    dictionary: Seq<DictionaryEntry>,
    polish: bool,
    auto_enter: bool,
    stage: StageModel,
    event: EventModel,
    raw: Seq<char>,
    text: Seq<char>,
    kind: EntryType,
    count: nat,
)
    requires
        step_model(dictionary, polish, auto_enter, stage, event).1.contains(
            EffectModel::Record(raw, text, kind, count),
        ),
    ensures
        step_model(dictionary, polish, auto_enter, stage, event).1.contains(EffectModel::Deliver(text, kind)),
        count == text.len(),
{
    let fx = step_model(dictionary, polish, auto_enter, stage, event).1;
    let k = choose|k: int| 0 <= k < fx.len() && fx[k] == EffectModel::Record(raw, text, kind, count);
    assert(fx[k] == EffectModel::Record(raw, text, kind, count));
    assert(fx[k + 1] == EffectModel::Deliver(text, kind));
}

/// Dictation: the text that is typed is the text that is later recorded and
/// delivered, with the dictionary-corrected transcript as the raw text,
/// whatever came of the typing.
pub proof fn law_typed_text_is_recorded(
    dictionary: Seq<DictionaryEntry>,
    polish: bool,
    auto_enter: bool,
    stage: StageModel,
    event: EventModel,
    typed: Result<(), Seq<char>>,
)
    requires
        step_model(dictionary, polish, auto_enter, stage, event).0 is Typing,
        !(stage is Typing),
    ensures
        ({
            let (next, fx) = step_model(dictionary, polish, auto_enter, stage, event);
            let (raw, text) = (next->Typing_0, next->Typing_1);
            let end = step_model(dictionary, polish, auto_enter, next, EventModel::Typed(typed)).1;
            &&& fx == seq![EffectModel::TypeText(text, auto_enter)]
            &&& end.contains(EffectModel::Record(raw, text, EntryType::Transcribe, text.len()))
            &&& end.contains(EffectModel::Deliver(text, EntryType::Transcribe))
        }),
{
    let (next, fx) = step_model(dictionary, polish, auto_enter, stage, event);
    let (raw, text) = (next->Typing_0, next->Typing_1);
    let end = step_model(dictionary, polish, auto_enter, next, EventModel::Typed(typed)).1;
    let k: int = if typed is Ok { 0 } else { 1 };
    assert(end[k] == EffectModel::Record(raw, text, EntryType::Transcribe, text.len()));
    assert(end[k + 1] == EffectModel::Deliver(text, EntryType::Transcribe));
}

/// A transcript is corrected by the dictionary before anything else: in
/// dictation the corrected text is what is polished, or typed as it is in
/// verbatim mode, and it is kept as the raw text; in an edit it is the
/// instruction, and a blank corrected instruction ends the edit.
pub proof fn law_transcript_is_corrected_first(
    dictionary: Seq<DictionaryEntry>,
    polish: bool,
    auto_enter: bool,
    t: Seq<char>,
)
    ensures
        ({
            let r = dictionary_result(t, dictionary);
            step_model(dictionary, polish, auto_enter, StageModel::Recognizing(EntryType::Transcribe), EventModel::Transcript(Ok(t)))
                == if polish {
                (StageModel::Polishing(r), seq![EffectModel::Polish(r)])
            } else {
                (StageModel::Typing(r, r), seq![EffectModel::TypeText(r, auto_enter)])
            }
        }),
        ({
            let r = dictionary_result(t, dictionary);
            step_model(dictionary, polish, auto_enter, StageModel::Recognizing(EntryType::Edit), EventModel::Transcript(Ok(t)))
                == if trim_seq(r).len() == 0 {
                (StageModel::Finished, seq![EffectModel::Idle])
            } else {
                (StageModel::Capturing(r), seq![EffectModel::CaptureSelection])
            }
        }),
{
}

/// What to do with a stopped recording.
#[derive(Debug, PartialEq, Eq)]
pub enum RecordingFinish {
    /// Report the error and return to idle.
    Failed { code: String, message: String },
    /// The session had already ended: return to idle.
    Dropped,
    /// Process the recording: `wav` is the encoded audio; the sample count
    /// and rate give its duration.
    Process { kind: EntryType, wav: Vec<u8>, samples: usize, sample_rate: u32 },
}

/// Decides what follows a stopped recording of a session in `mode`: a
/// failed stop or an empty recording is reported; otherwise the samples are
/// encoded as a mono 16-bit WAV file and handed to the pipeline of the
/// session's kind (none when the session had already ended).
pub fn recording_finished(mode: ActiveMode, outcome: Recording) -> (r: RecordingFinish)
    requires
        outcome matches Ok(p) ==> (p.0@.len() == 0 || wav_encodable(p.0@.len() as int, p.1)),
    ensures
        match outcome {
            Err(e) => r matches RecordingFinish::Failed { code, message } && code@ == "recording_stop_failed"@
                && message@ == e@,
            Ok(p) => if p.0@.len() == 0 {
                r matches RecordingFinish::Failed { code, message } && code@ == "no_audio"@ && message@
                    == "未录制到音频"@
            } else if mode == ActiveMode::Idle {
                r is Dropped
            } else {
                r matches RecordingFinish::Process { kind, wav, samples, sample_rate } && kind == (if mode
                    == ActiveMode::Edit {
                    EntryType::Edit
                } else {
                    EntryType::Transcribe
                }) && wav@ == wav_mono16(p.0@, p.1) && samples == p.0@.len() && sample_rate == p.1
            },
        },
{
    match outcome {
        Err(e) => RecordingFinish::Failed { code: owned("recording_stop_failed"), message: e },
        Ok((samples, sample_rate)) => {
            if samples.len() == 0 {
                return RecordingFinish::Failed { code: owned("no_audio"), message: owned("未录制到音频") };
            }
            match samples_to_wav(samples.as_slice(), sample_rate) {
                Ok(wav) => match mode {
                    ActiveMode::Idle => RecordingFinish::Dropped,
                    ActiveMode::Transcribe => RecordingFinish::Process {
                        kind: EntryType::Transcribe,
                        wav,
                        samples: samples.len(),
                        sample_rate,
                    },
                    ActiveMode::Edit => RecordingFinish::Process {
                        kind: EntryType::Edit,
                        wav,
                        samples: samples.len(),
                        sample_rate,
                    },
                },
                Err(e) => RecordingFinish::Failed { code: owned("wav_encode_failed"), message: e },
            }
        },
    }
}

} // verus!
