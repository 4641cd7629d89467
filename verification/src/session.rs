//! Recording sessions: what a shortcut press does, settings updates, and the
//! small decisions around typing results and recording history.

use vstd::prelude::*;

use crate::config::Config;
use crate::dictionary::{dictionary_check, validate_dictionary};
use crate::shortcut::{is_bare_escape, no_modifiers, parse_shortcut, parsed_shortcut, KeyCode, Shortcut};
use crate::text::{chars_are, chars_of, concat, owned, string_of_range};

verus! {

/// What the app is doing.
#[derive(Debug, Clone, Copy, PartialEq, Eq, Structural)]
pub enum ActiveMode {
    Idle,
    Transcribe,
    Edit,
}

/// How the recording shortcut works.
#[derive(Debug, Clone, Copy, PartialEq, Eq, Structural)]
pub enum RecordingMode {
    /// Hold to record, release to stop.
    PushToTalk,
    /// Press to start, press again to stop.
    Continuous,
}

impl RecordingMode {
    /// The mode a settings value names: "continuous", anything else push-to-talk.
    pub fn from(s: &str) -> (r: RecordingMode)
        ensures
            r == (if s@ == "continuous"@ {
                RecordingMode::Continuous
            } else {
                RecordingMode::PushToTalk
            }),
    {
        let v = chars_of(s);
        if chars_are(&v, "continuous") {
            RecordingMode::Continuous
        } else {
            RecordingMode::PushToTalk
        }
    }
}

/// Which registered shortcut fired.
#[derive(Debug, Clone, Copy, PartialEq, Eq, Structural)]
pub enum ShortcutRole {
    /// Escape (any modifiers): cancel.
    Cancel,
    /// The recording shortcut.
    Record,
    /// The voice-editing shortcut.
    Edit,
    /// Something else.
    Unknown,
}

/// The role of a shortcut event: a press of any Escape-key shortcut first,
/// then the recording shortcut, then the editing shortcut.
pub fn shortcut_role(fired: &Shortcut, pressed: bool, record: Option<Shortcut>, edit: Option<Shortcut>) -> (r:
    ShortcutRole)
    ensures
        r == (if fired.key == KeyCode::Escape && pressed {
            ShortcutRole::Cancel
        } else if record == Some(*fired) {
            ShortcutRole::Record
        } else if edit == Some(*fired) {
            ShortcutRole::Edit
        } else {
            ShortcutRole::Unknown
        }),
{
    if fired.key == KeyCode::Escape && pressed {
        return ShortcutRole::Cancel;
    }
    if let Some(r) = record {
        if r == *fired {
            return ShortcutRole::Record;
        }
    }
    if let Some(e) = edit {
        if e == *fired {
            return ShortcutRole::Edit;
        }
    }
    ShortcutRole::Unknown
}

/// What the app must do after a shortcut event.
#[derive(Debug, Clone, Copy, PartialEq, Eq, Structural)]
pub enum SessionAction {
    Nothing,
    /// Drop the current recording without processing it.
    Cancel,
    /// Start recording for the given mode.
    Start(ActiveMode),
    /// Stop recording and process the audio.
    Stop,
}

/// The session mode right after the event, and the action to perform.
#[derive(Debug, Clone, Copy, PartialEq, Eq, Structural)]
pub struct SessionStep {
    pub mode: ActiveMode,
    pub action: SessionAction,
}

/// Reaction to a shortcut event (`pressed` or released) in mode `active`.
/// Escape cancels a running session. In continuous mode a press of the
/// recording shortcut starts a transcription when idle (the session becomes
/// active once recording really starts) and stops a running transcription.
/// In push-to-talk mode a press starts a transcription when idle and the
/// release stops it. The editing shortcut works push-to-talk.
pub open spec fn session_step(active: ActiveMode, role: ShortcutRole, pressed: bool, mode: RecordingMode) -> SessionStep {
    let nothing = SessionStep { mode: active, action: SessionAction::Nothing };
    match role {
        ShortcutRole::Cancel => if pressed && active != ActiveMode::Idle {
            SessionStep { mode: ActiveMode::Idle, action: SessionAction::Cancel }
        } else {
            nothing
        },
        ShortcutRole::Record => match mode {
            RecordingMode::Continuous => if pressed && active == ActiveMode::Idle {
                SessionStep { mode: ActiveMode::Idle, action: SessionAction::Start(ActiveMode::Transcribe) }
            } else if pressed && active == ActiveMode::Transcribe {
                SessionStep { mode: ActiveMode::Idle, action: SessionAction::Stop }
            } else {
                nothing
            },
            RecordingMode::PushToTalk => if pressed && active == ActiveMode::Idle {
                SessionStep { mode: ActiveMode::Transcribe, action: SessionAction::Start(ActiveMode::Transcribe) }
            } else if !pressed && active == ActiveMode::Transcribe {
                SessionStep { mode: ActiveMode::Idle, action: SessionAction::Stop }
            } else {
                nothing
            },
        },
        ShortcutRole::Edit => if pressed && active == ActiveMode::Idle {
            SessionStep { mode: ActiveMode::Edit, action: SessionAction::Start(ActiveMode::Edit) }
        } else if !pressed && active == ActiveMode::Edit {
            SessionStep { mode: ActiveMode::Idle, action: SessionAction::Stop }
        } else {
            nothing
        },
        ShortcutRole::Unknown => nothing,
    }
}

/// Reaction to a shortcut event; see `session_step`.
pub fn on_shortcut(active: ActiveMode, role: ShortcutRole, pressed: bool, mode: RecordingMode) -> (r: SessionStep)
    ensures
        r == session_step(active, role, pressed, mode),
{
    let nothing = SessionStep { mode: active, action: SessionAction::Nothing };
    match role {
        ShortcutRole::Cancel => if pressed && active != ActiveMode::Idle {
            SessionStep { mode: ActiveMode::Idle, action: SessionAction::Cancel }
        } else {
            nothing
        },
        ShortcutRole::Record => match mode {
            RecordingMode::Continuous => if pressed && active == ActiveMode::Idle {
                SessionStep { mode: ActiveMode::Idle, action: SessionAction::Start(ActiveMode::Transcribe) }
            } else if pressed && active == ActiveMode::Transcribe {
                SessionStep { mode: ActiveMode::Idle, action: SessionAction::Stop }
            } else {
                nothing
            },
            RecordingMode::PushToTalk => if pressed && active == ActiveMode::Idle {
                SessionStep { mode: ActiveMode::Transcribe, action: SessionAction::Start(ActiveMode::Transcribe) }
            } else if !pressed && active == ActiveMode::Transcribe {
                SessionStep { mode: ActiveMode::Idle, action: SessionAction::Stop }
            } else {
                nothing
            },
        },
        ShortcutRole::Edit => if pressed && active == ActiveMode::Idle {
            SessionStep { mode: ActiveMode::Edit, action: SessionAction::Start(ActiveMode::Edit) }
        } else if !pressed && active == ActiveMode::Edit {
            SessionStep { mode: ActiveMode::Idle, action: SessionAction::Stop }
        } else {
            nothing
        },
        ShortcutRole::Unknown => nothing,
    }
}

/// The mode once an attempted start is over: the started mode when recording
/// began, otherwise the mode is left as it was.
pub open spec fn start_result(current: ActiveMode, started: ActiveMode, ok: bool) -> ActiveMode {
    if ok {
        started
    } else {
        current
    }
}

/// The mode once an attempted start is over (see `start_result`).
pub fn after_start(current: ActiveMode, started: ActiveMode, ok: bool) -> (r: ActiveMode)
    ensures
        r == start_result(current, started, ok),
{
    if ok {
        started
    } else {
        current
    }
}

/// A recording is only ever started from the idle state, for a real session.
pub proof fn law_start_only_when_idle(active: ActiveMode, role: ShortcutRole, pressed: bool, mode: RecordingMode, m: ActiveMode)
    requires
        session_step(active, role, pressed, mode).action == SessionAction::Start(m),
    ensures
        active == ActiveMode::Idle,
        m != ActiveMode::Idle,
        pressed,
{
}

/// Push to talk: from idle, pressing the recording shortcut starts a
/// dictation, and once the recorder started, releasing the shortcut stops it and
/// returns to idle.
pub proof fn law_push_to_talk_round_trip()
    ensures
        ({
            let press = session_step(ActiveMode::Idle, ShortcutRole::Record, true, RecordingMode::PushToTalk);
            let running = start_result(press.mode, ActiveMode::Transcribe, true);
            let release = session_step(running, ShortcutRole::Record, false, RecordingMode::PushToTalk);
            &&& press.action == SessionAction::Start(ActiveMode::Transcribe)
            &&& release == (SessionStep { mode: ActiveMode::Idle, action: SessionAction::Stop })
        }),
{
}

/// The editing shortcut is push to talk in every recording mode: a press
/// from idle starts an edit, releasing it during the edit stops it and
/// returns to idle, a press during the edit or a release while idle does
/// nothing, and after a successful start the release stops that edit.
pub proof fn law_edit_shortcut_is_push_to_talk(mode: RecordingMode)
    ensures
        session_step(ActiveMode::Idle, ShortcutRole::Edit, true, mode) == (SessionStep {
            mode: ActiveMode::Edit,
            action: SessionAction::Start(ActiveMode::Edit),
        }),
        session_step(ActiveMode::Edit, ShortcutRole::Edit, false, mode) == (SessionStep {
            mode: ActiveMode::Idle,
            action: SessionAction::Stop,
        }),
        session_step(ActiveMode::Edit, ShortcutRole::Edit, true, mode) == (SessionStep {
            mode: ActiveMode::Edit,
            action: SessionAction::Nothing,
        }),
        session_step(ActiveMode::Idle, ShortcutRole::Edit, false, mode).action == SessionAction::Nothing,
        ({
            let press = session_step(ActiveMode::Idle, ShortcutRole::Edit, true, mode);
            let running = start_result(press.mode, ActiveMode::Edit, true);
            session_step(running, ShortcutRole::Edit, false, mode) == (SessionStep {
                mode: ActiveMode::Idle,
                action: SessionAction::Stop,
            })
        }),
{
}

/// Continuous recording: a press starts a dictation from idle, a press
/// during the dictation stops it, and releases do nothing.
pub proof fn law_continuous_toggle(active: ActiveMode)
    ensures
        session_step(ActiveMode::Idle, ShortcutRole::Record, true, RecordingMode::Continuous).action
            == SessionAction::Start(ActiveMode::Transcribe),
        session_step(ActiveMode::Transcribe, ShortcutRole::Record, true, RecordingMode::Continuous)
            == (SessionStep { mode: ActiveMode::Idle, action: SessionAction::Stop }),
        session_step(active, ShortcutRole::Record, false, RecordingMode::Continuous).action
            == SessionAction::Nothing,
{
}

/// Pressing Esc during any session cancels it and returns to idle.
pub proof fn law_escape_cancels_session(active: ActiveMode, mode: RecordingMode)
    requires
        active != ActiveMode::Idle,
    ensures
        session_step(active, ShortcutRole::Cancel, true, mode) == (SessionStep {
            mode: ActiveMode::Idle,
            action: SessionAction::Cancel,
        }),
{
}

/// Stopping or cancelling only happens in a running session and always
/// returns to idle; a stop ends the session of the shortcut that started it.
pub proof fn law_stop_and_cancel_return_to_idle(active: ActiveMode, role: ShortcutRole, pressed: bool, mode: RecordingMode)
    ensures
        ({
            let s = session_step(active, role, pressed, mode);
            &&& (s.action == SessionAction::Stop || s.action == SessionAction::Cancel) ==> s.mode
                == ActiveMode::Idle && active != ActiveMode::Idle
            &&& s.action == SessionAction::Stop && role == ShortcutRole::Record ==> active
                == ActiveMode::Transcribe
            &&& s.action == SessionAction::Stop && role == ShortcutRole::Edit ==> active == ActiveMode::Edit
        }),
{
}

/// A press of an Escape-key shortcut (the cancel role) never starts or stops
/// a recording, and nothing happens for a shortcut that is not registered.
pub proof fn law_escape_only_cancels(active: ActiveMode, pressed: bool, mode: RecordingMode)
    ensures
        session_step(active, ShortcutRole::Cancel, pressed, mode).action == SessionAction::Cancel
            || session_step(active, ShortcutRole::Cancel, pressed, mode).action == SessionAction::Nothing,
        session_step(active, ShortcutRole::Unknown, pressed, mode) == (SessionStep {
            mode: active,
            action: SessionAction::Nothing,
        }),
{
}

/// What applying new settings requires of the shortcut registrations.
#[derive(Debug, Clone, Copy, PartialEq, Eq, Structural)]
pub struct SettingsPlan {
    pub record: Shortcut,
    pub edit: Shortcut,
    /// Register the new recording shortcut (it changed).
    pub register_record: bool,
    /// Register the new editing shortcut (it changed).
    pub register_edit: bool,
    /// Old recording shortcut to unregister once the new ones are in place.
    pub release_record: Option<Shortcut>,
    /// Old editing shortcut to unregister.
    pub release_edit: Option<Shortcut>,
}

/// The registration plan for new shortcuts given the registered ones: only
/// changed shortcuts are registered, and an old shortcut is released only
/// when it was replaced.
pub open spec fn plan_for(record: Shortcut, edit: Shortcut, cur_record: Option<Shortcut>, cur_edit: Option<Shortcut>) -> SettingsPlan {
    SettingsPlan {
        record,
        edit,
        register_record: cur_record != Some(record),
        register_edit: cur_edit != Some(edit),
        release_record: match cur_record {
            Some(o) => if o != record { Some(o) } else { None },
            None => None,
        },
        release_edit: match cur_edit {
            Some(o) => if o != edit { Some(o) } else { None },
            None => None,
        },
    }
}

/// Whether a shortcut is Escape without modifiers.
pub open spec fn bare_escape(s: Shortcut) -> bool {
    s.key == KeyCode::Escape && s.mods == no_modifiers()
}

/// The check of new settings, in this order: a session must not be running;
/// the dictionary must be valid; both shortcuts must parse; neither may be a
/// bare Escape; they must differ. Gives both shortcuts or the error message.
pub open spec fn settings_check(
    active: ActiveMode,
    dictionary: Seq<crate::dictionary::DictionaryEntry>,
    shortcut: Seq<char>,
    edit_shortcut: Seq<char>,
) -> Result<(Shortcut, Shortcut), Seq<char>> {
    if active != ActiveMode::Idle {
        Err("请先结束当前录音或编辑再修改设置"@)
    } else {
        match dictionary_check(dictionary) {
            Err(m) => Err(m),
            Ok(_) => match parsed_shortcut(shortcut) {
                Err(m) => Err(m),
                Ok(a) => match parsed_shortcut(edit_shortcut) {
                    Err(m) => Err(m),
                    Ok(b) => if bare_escape(a) {
                        Err("录音快捷键不能是 Esc"@)
                    } else if bare_escape(b) {
                        Err("编辑快捷键不能是 Esc"@)
                    } else if a == b {
                        Err("录音快捷键和编辑快捷键不能相同"@)
                    } else {
                        Ok((a, b))
                    },
                },
            },
        }
    }
}

/// Checks new settings (see `settings_check`) and, when they are acceptable,
/// plans the shortcut registrations.
pub fn plan_settings_update(
    active: ActiveMode,
    new_config: &Config,
    cur_record: Option<Shortcut>,
    cur_edit: Option<Shortcut>,
) -> (r: Result<SettingsPlan, String>)
    ensures
        ({
            let c = settings_check(active, new_config.dictionary@, new_config.shortcut@, new_config.edit_shortcut@);
            &&& r is Ok <==> c is Ok
            &&& r matches Err(m) ==> c == Err::<(Shortcut, Shortcut), Seq<char>>(m@)
            &&& r matches Ok(p) ==> p == plan_for(c->Ok_0.0, c->Ok_0.1, cur_record, cur_edit)
        }),
{
    if active != ActiveMode::Idle {
        return Err(owned("请先结束当前录音或编辑再修改设置"));
    }
    validate_dictionary(new_config.dictionary.as_slice())?;
    let record = parse_shortcut(new_config.shortcut.as_str())?;
    let edit = parse_shortcut(new_config.edit_shortcut.as_str())?;
    if is_bare_escape(&record) {
        return Err(owned("录音快捷键不能是 Esc"));
    }
    if is_bare_escape(&edit) {
        return Err(owned("编辑快捷键不能是 Esc"));
    }
    if record == edit {
        return Err(owned("录音快捷键和编辑快捷键不能相同"));
    }
    let register_record = match cur_record {
        Some(o) => o != record,
        None => true,
    };
    let register_edit = match cur_edit {
        Some(o) => o != edit,
        None => true,
    };
    let release_record = match cur_record {
        Some(o) => if o != record { Some(o) } else { None },
        None => None,
    };
    let release_edit = match cur_edit {
        Some(o) => if o != edit { Some(o) } else { None },
        None => None,
    };
    Ok(SettingsPlan { record, edit, register_record, register_edit, release_record, release_edit })
}

/// Where applying a planned settings change stands.
#[derive(Debug, Clone, Copy, PartialEq, Eq, Structural)]
pub enum SettingsStage {
    /// Waiting for the new recording shortcut to be registered.
    RegisteringRecord,
    /// Waiting for the new editing shortcut to be registered.
    RegisteringEdit,
    /// Waiting for the settings file to be written.
    Saving,
    /// Nothing left to do.
    Done,
}

/// One thing for the caller to do while applying a settings change.
#[derive(Debug, PartialEq, Eq)]
pub enum SettingsAction {
    /// Register this global shortcut (outcome: registered or not).
    Register(Shortcut),
    /// Release this global shortcut.
    Unregister(Shortcut),
    /// The plan's two shortcuts become the current ones.
    Adopt,
    /// Write the new settings to disk (outcome: written or not).
    Save,
    /// The new settings become the current ones; the change succeeded.
    Apply,
    /// The change is refused with this message; the current settings stay.
    Fail(String),
}

/// `SettingsAction` with its message as a character sequence.
pub enum SettingsActionModel {
    Register(Shortcut),
    Unregister(Shortcut),
    Adopt,
    Save,
    Apply,
    Fail(Seq<char>),
}

impl View for SettingsAction {
    type V = SettingsActionModel;

    open spec fn view(&self) -> SettingsActionModel {
        match self {
            SettingsAction::Register(s) => SettingsActionModel::Register(*s),
            SettingsAction::Unregister(s) => SettingsActionModel::Unregister(*s),
            SettingsAction::Adopt => SettingsActionModel::Adopt,
            SettingsAction::Save => SettingsActionModel::Save,
            SettingsAction::Apply => SettingsActionModel::Apply,
            SettingsAction::Fail(m) => SettingsActionModel::Fail(m@),
        }
    }
}

/// The actions as models, in order.
pub open spec fn settings_actions_view(v: Seq<SettingsAction>) -> Seq<SettingsActionModel> {
    v.map_values(|a: SettingsAction| a@)
}

/// Releasing a shortcut that is no longer used, if any.
pub open spec fn release_model(o: Option<Shortcut>) -> Seq<SettingsActionModel> {
    match o {
        Some(s) => seq![SettingsActionModel::Unregister(s)],
        None => seq![],
    }
}

/// Once every changed shortcut is registered: adopt the new shortcuts,
/// release the old ones that changed, then write the settings.
pub open spec fn commit_model(plan: SettingsPlan) -> Seq<SettingsActionModel> {
    seq![SettingsActionModel::Adopt] + release_model(plan.release_record) + release_model(plan.release_edit)
        + seq![SettingsActionModel::Save]
}

/// How applying `plan` starts: register the recording shortcut if it
/// changed, else the editing shortcut if it changed; with both unchanged the
/// settings are only written.
pub open spec fn settings_begin_model(plan: SettingsPlan) -> (SettingsStage, Seq<SettingsActionModel>) {
    if plan.register_record {
        (SettingsStage::RegisteringRecord, seq![SettingsActionModel::Register(plan.record)])
    } else if plan.register_edit {
        (SettingsStage::RegisteringEdit, seq![SettingsActionModel::Register(plan.edit)])
    } else {
        (SettingsStage::Saving, seq![SettingsActionModel::Save])
    }
}

/// What follows each outcome. A failed registration of the recording
/// shortcut refuses the change; a failed registration of the editing
/// shortcut first releases the new recording shortcut if it was registered
/// here. Nothing is adopted or written in either case. A failed write
/// refuses the change with the writer's message.
pub open spec fn settings_step_model(plan: SettingsPlan, stage: SettingsStage, outcome: Result<(), Seq<char>>) -> (
    SettingsStage,
    Seq<SettingsActionModel>,
) {
    match stage {
        SettingsStage::RegisteringRecord => match outcome {
            Err(e) => (SettingsStage::Done, seq![SettingsActionModel::Fail("注册录音快捷键失败: "@ + e)]),
            Ok(_) => if plan.register_edit {
                (SettingsStage::RegisteringEdit, seq![SettingsActionModel::Register(plan.edit)])
            } else {
                (SettingsStage::Saving, commit_model(plan))
            },
        },
        SettingsStage::RegisteringEdit => match outcome {
            Err(e) => (
                SettingsStage::Done,
                (if plan.register_record {
                    seq![SettingsActionModel::Unregister(plan.record)]
                } else {
                    seq![]
                }) + seq![SettingsActionModel::Fail("注册编辑快捷键失败: "@ + e)],
            ),
            Ok(_) => (SettingsStage::Saving, commit_model(plan)),
        },
        SettingsStage::Saving => match outcome {
            Err(e) => (SettingsStage::Done, seq![SettingsActionModel::Fail(e)]),
            Ok(_) => (SettingsStage::Done, seq![SettingsActionModel::Apply]),
        },
        SettingsStage::Done => (SettingsStage::Done, seq![]),
    }
}

fn one_action(a: SettingsAction) -> (r: Vec<SettingsAction>)
    ensures
        settings_actions_view(r@) == seq![a@],
{
    let ghost ga = a;
    let mut v: Vec<SettingsAction> = Vec::new();
    v.push(a);
    assert(settings_actions_view(v@) =~= seq![ga@]);
    v
}

fn commit_actions(plan: &SettingsPlan) -> (r: Vec<SettingsAction>)
    ensures
        settings_actions_view(r@) == commit_model(*plan),
{
    let mut v: Vec<SettingsAction> = Vec::new();
    v.push(SettingsAction::Adopt);
    assert(settings_actions_view(v@) =~= seq![SettingsActionModel::Adopt]);
    let ghost a = settings_actions_view(v@);
    match plan.release_record {
        Some(o) => v.push(SettingsAction::Unregister(o)),
        None => {},
    }
    assert(settings_actions_view(v@) =~= a + release_model(plan.release_record));
    let ghost b = settings_actions_view(v@);
    match plan.release_edit {
        Some(o) => v.push(SettingsAction::Unregister(o)),
        None => {},
    }
    assert(settings_actions_view(v@) =~= b + release_model(plan.release_edit));
    let ghost c = settings_actions_view(v@);
    v.push(SettingsAction::Save);
    assert(settings_actions_view(v@) =~= c + seq![SettingsActionModel::Save]);
    v
}

/// Starts applying `plan`, exactly as `settings_begin_model` says.
pub fn settings_begin(plan: &SettingsPlan) -> (r: (SettingsStage, Vec<SettingsAction>))
    ensures
        r.0 == settings_begin_model(*plan).0,
        settings_actions_view(r.1@) == settings_begin_model(*plan).1,
{
    if plan.register_record {
        (SettingsStage::RegisteringRecord, one_action(SettingsAction::Register(plan.record)))
    } else if plan.register_edit {
        (SettingsStage::RegisteringEdit, one_action(SettingsAction::Register(plan.edit)))
    } else {
        (SettingsStage::Saving, one_action(SettingsAction::Save))
    }
}

/// The next stage and actions after `outcome` (of the last registration or
/// write), exactly as `settings_step_model` says.
pub fn settings_step(plan: &SettingsPlan, stage: SettingsStage, outcome: Result<(), String>) -> (r: (
    SettingsStage,
    Vec<SettingsAction>,
))
    ensures
        r.0 == settings_step_model(*plan, stage, match outcome {
            Ok(_) => Ok(()),
            Err(e) => Err(e@),
        }).0,
        settings_actions_view(r.1@) == settings_step_model(*plan, stage, match outcome {
            Ok(_) => Ok(()),
            Err(e) => Err(e@),
        }).1,
{
    match stage {
        SettingsStage::RegisteringRecord => match outcome {
            Err(e) => (SettingsStage::Done, one_action(SettingsAction::Fail(concat("注册录音快捷键失败: ", e.as_str())))),
            Ok(_) => if plan.register_edit {
                (SettingsStage::RegisteringEdit, one_action(SettingsAction::Register(plan.edit)))
            } else {
                (SettingsStage::Saving, commit_actions(plan))
            },
        },
        SettingsStage::RegisteringEdit => match outcome {
            Err(e) => {
                let fail = SettingsAction::Fail(concat("注册编辑快捷键失败: ", e.as_str()));
                let ghost gf = fail@;
                let mut v: Vec<SettingsAction> = Vec::new();
                if plan.register_record {
                    v.push(SettingsAction::Unregister(plan.record));
                }
                let ghost before = settings_actions_view(v@);
                v.push(fail);
                assert(settings_actions_view(v@) =~= before + seq![gf]);
                (SettingsStage::Done, v)
            },
            Ok(_) => (SettingsStage::Saving, commit_actions(plan)),
        },
        SettingsStage::Saving => match outcome {
            Err(e) => (SettingsStage::Done, one_action(SettingsAction::Fail(e))),
            Ok(_) => (SettingsStage::Done, one_action(SettingsAction::Apply)),
        },
        SettingsStage::Done => (SettingsStage::Done, Vec::new()),
    }
}

/// A failed registration refuses the change and rolls it back: nothing is
/// adopted, written or applied, the old shortcuts are not released, and the
/// only shortcut released is the new recording shortcut when it was
/// registered for this change.
pub proof fn law_failed_registration_rolls_back(plan: SettingsPlan, stage: SettingsStage, e: Seq<char>)
    requires
        stage == SettingsStage::RegisteringRecord || stage == SettingsStage::RegisteringEdit,
    ensures
        ({
            let (next, acts) = settings_step_model(plan, stage, Err(e));
            &&& next == SettingsStage::Done
            &&& acts.last() is Fail
            &&& !acts.contains(SettingsActionModel::Adopt)
            &&& !acts.contains(SettingsActionModel::Save)
            &&& !acts.contains(SettingsActionModel::Apply)
            &&& forall|s: Shortcut|
                acts.contains(SettingsActionModel::Unregister(s)) ==> s == plan.record && plan.register_record
                    && stage == SettingsStage::RegisteringEdit
            &&& stage == SettingsStage::RegisteringEdit && plan.register_record ==> acts.contains(
                SettingsActionModel::Unregister(plan.record),
            )
        }),
{
    let (next, acts) = settings_step_model(plan, stage, Err(e));
    if stage == SettingsStage::RegisteringEdit && plan.register_record {
        assert(acts[0] == SettingsActionModel::Unregister(plan.record));
    }
    assert forall|s: Shortcut| acts.contains(SettingsActionModel::Unregister(s)) implies s == plan.record
        && plan.register_record && stage == SettingsStage::RegisteringEdit by {
        let k = choose|k: int| 0 <= k < acts.len() && acts[k] == SettingsActionModel::Unregister(s);
        assert(acts[k] == SettingsActionModel::Unregister(s));
    }
    if acts.contains(SettingsActionModel::Adopt) {
        let k = choose|k: int| 0 <= k < acts.len() && acts[k] == SettingsActionModel::Adopt;
        assert(acts[k] == SettingsActionModel::Adopt);
    }
    if acts.contains(SettingsActionModel::Save) {
        let k = choose|k: int| 0 <= k < acts.len() && acts[k] == SettingsActionModel::Save;
        assert(acts[k] == SettingsActionModel::Save);
    }
    if acts.contains(SettingsActionModel::Apply) {
        let k = choose|k: int| 0 <= k < acts.len() && acts[k] == SettingsActionModel::Apply;
        assert(acts[k] == SettingsActionModel::Apply);
    }
}

/// The new settings become current only after they were written, and the
/// new shortcuts are adopted only once every changed one is registered.
pub proof fn law_apply_after_save(plan: SettingsPlan, stage: SettingsStage, outcome: Result<(), Seq<char>>)
    ensures
        ({
            let acts = settings_step_model(plan, stage, outcome).1;
            &&& acts.contains(SettingsActionModel::Apply) ==> stage == SettingsStage::Saving && outcome is Ok
            &&& acts.contains(SettingsActionModel::Adopt) ==> outcome is Ok && (stage
                == SettingsStage::RegisteringEdit || (stage == SettingsStage::RegisteringRecord
                && !plan.register_edit))
        }),
{
    let acts = settings_step_model(plan, stage, outcome).1;
    if acts.contains(SettingsActionModel::Apply) {
        let k = choose|k: int| 0 <= k < acts.len() && acts[k] == SettingsActionModel::Apply;
        assert(acts[k] == SettingsActionModel::Apply);
    }
    if acts.contains(SettingsActionModel::Adopt) {
        let k = choose|k: int| 0 <= k < acts.len() && acts[k] == SettingsActionModel::Adopt;
        assert(acts[k] == SettingsActionModel::Adopt);
    }
}

/// How a result reaches the focused application.
#[derive(Debug, Clone, Copy, PartialEq, Eq, Structural)]
pub enum InputRoute {
    /// Simulated typing.
    Keyboard,
    /// Copy to the clipboard and paste.
    Clipboard,
}

/// Long texts (more characters than the threshold) are pasted through the
/// clipboard when that fallback is enabled; everything else is typed.
pub open spec fn route_for(text: Seq<char>, use_clipboard_fallback: bool, threshold: usize) -> InputRoute {
    if use_clipboard_fallback && text.len() > threshold {
        InputRoute::Clipboard
    } else {
        InputRoute::Keyboard
    }
}

/// How a text is put at the cursor (see `route_for`).
pub fn input_route(text: &str, use_clipboard_fallback: bool, threshold: usize) -> (r: InputRoute)
    ensures
        r == route_for(text@, use_clipboard_fallback, threshold),
{
    if use_clipboard_fallback && text.unicode_len() > threshold {
        InputRoute::Clipboard
    } else {
        InputRoute::Keyboard
    }
}

/// Whether a transcript is polished by the language model (output mode "polish").
pub fn should_polish(output_mode: &str) -> (r: bool)
    ensures
        r == (output_mode@ == "polish"@),
{
    let v = chars_of(output_mode);
    chars_are(&v, "polish")
}

/// After typing by keyboard failed: paste through the clipboard when the
/// fallback is on, otherwise fail with the keyboard's error.
pub open spec fn keyboard_failure_outcome(use_clipboard_fallback: bool, error: Seq<char>) -> Result<
    InputRoute,
    Seq<char>,
> {
    if use_clipboard_fallback {
        Ok(InputRoute::Clipboard)
    } else {
        Err("键盘输入失败: "@ + error)
    }
}

/// What follows a failed attempt to type by keyboard (see `keyboard_failure_outcome`).
pub fn after_keyboard_failure(use_clipboard_fallback: bool, error: &str) -> (r: Result<InputRoute, String>)
    ensures
        match r {
            Ok(route) => keyboard_failure_outcome(use_clipboard_fallback, error@) == Ok::<
                InputRoute,
                Seq<char>,
            >(route),
            Err(m) => keyboard_failure_outcome(use_clipboard_fallback, error@) == Err::<
                InputRoute,
                Seq<char>,
            >(m@),
        },
{
    if use_clipboard_fallback {
        Ok(InputRoute::Clipboard)
    } else {
        Err(concat("键盘输入失败: ", error))
    }
}

/// With the clipboard fallback on, a text is pasted whenever it is longer
/// than the threshold, and also whenever typing it by keyboard failed; with
/// it off, texts are always typed and a keyboard failure is an error.
pub proof fn law_clipboard_fallback(text: Seq<char>, threshold: usize, error: Seq<char>)
    ensures
        text.len() > threshold ==> route_for(text, true, threshold) == InputRoute::Clipboard,
        keyboard_failure_outcome(true, error) == Ok::<InputRoute, Seq<char>>(InputRoute::Clipboard),
        route_for(text, false, threshold) == InputRoute::Keyboard,
        keyboard_failure_outcome(false, error) is Err,
{
}

/// Longest raw text kept for an editing session in the history.
pub const EDIT_RAW_TEXT_LIMIT: usize = 250;

/// The raw text recorded for an editing session, before any cut.
pub open spec fn edit_raw_text(instruction: Seq<char>, selected: Option<Seq<char>>) -> Seq<char> {
    "instruction: "@ + instruction + " | selected: "@ + match selected {
        Some(s) => s,
        None => "<无>"@,
    }
}

/// The history text of an edit: `edit_raw_text`, cut to `EDIT_RAW_TEXT_LIMIT`
/// characters followed by "..." when longer.
pub open spec fn edit_history_seq(instruction: Seq<char>, selected: Option<Seq<char>>) -> Seq<char> {
    let raw = edit_raw_text(instruction, selected);
    if raw.len() <= EDIT_RAW_TEXT_LIMIT {
        raw
    } else {
        raw.take(EDIT_RAW_TEXT_LIMIT as int) + "..."@
    }
}

/// The history text of an editing session: "instruction: … | selected: …"
/// ("<无>" when nothing was selected), cut to `EDIT_RAW_TEXT_LIMIT`
/// characters followed by "..." when longer.
pub fn edit_history_text(instruction: &str, selected: Option<&str>) -> (r: String)
    ensures
        r@ == edit_history_seq(instruction@, match selected {
            Some(s) => Some(s@),
            None => None,
        }),
{
    let a = concat("instruction: ", instruction);
    let b = concat(a.as_str(), " | selected: ");
    let raw = match selected {
        Some(s) => concat(b.as_str(), s),
        None => concat(b.as_str(), "<无>"),
    };
    let v = chars_of(raw.as_str());
    if v.len() > EDIT_RAW_TEXT_LIMIT {
        let head = string_of_range(&v, 0, EDIT_RAW_TEXT_LIMIT);
        concat(head.as_str(), "...")
    } else {
        raw
    }
}

} // verus!
