//! Inserting text into the focused application: which path to take (simulated
//! typing or a clipboard paste), the fallback when it fails, and the keyboard
//! events that each path sends.
use vstd::prelude::*;

use crate::text::{append_chars, append_str, chars_of, decimal, decimal_of, string_of};

verus! {

/// Texts shorter than this many characters are typed; longer ones are pasted.
pub const PASTE_THRESHOLD_CHARS: usize = 100;

/// Windows virtual-key code of the Control key.
pub const VK_CONTROL: u16 = 0x11;

/// Windows virtual-key code of the V key.
pub const VK_V: u16 = 0x56;

/// `KEYEVENTF_KEYUP`: the event releases the key.
pub const KEYEVENTF_KEYUP: u32 = 0x0002;

/// `KEYEVENTF_UNICODE`: the event carries a UTF-16 code unit in its scan code.
pub const KEYEVENTF_UNICODE: u32 = 0x0004;

/// How text reaches the focused application.
#[derive(Debug, Clone, Copy, PartialEq, Eq, Structural)]
pub enum InjectionMode {
    Typing,
    ClipboardPaste,
}

/// One synthesized keyboard event (the keyboard part of a Win32 `INPUT`).
#[derive(Debug, Clone, Copy, PartialEq, Eq, Structural)]
pub struct KeyInput {
    pub vk: u16,
    pub scan: u16,
    pub flags: u32,
}

/// Inserts text into the focused application.
pub struct TextInjector;

/// How far one insertion has got.
#[derive(Debug, PartialEq, Eq)]
pub enum InjectionPhase {
    /// The text was sent on its preferred path.
    Preferred,
    /// The preferred path failed with this error; the text was sent on the other path.
    Fallback(String),
    /// The insertion is over.
    Finished,
}

/// One insertion: the text, its preferred path, and how far it has got.
#[derive(Debug)]
pub struct Injection {
    pub text: String,
    pub preferred: InjectionMode,
    pub phase: InjectionPhase,
}

/// What the surroundings do next for an insertion.
#[derive(Debug, PartialEq, Eq)]
pub enum InjectionAction {
    /// Insert `text` on the path `mode`, then hand the outcome to
    /// `TextInjector::after_send`.
    Send { text: String, mode: InjectionMode },
    /// The insertion is over with this result.
    Finish(Result<(), String>),
}

/// The mode used first for a text of `text_len` characters.
pub open spec fn preferred_mode_for(text_len: nat) -> InjectionMode {
    if text_len < PASTE_THRESHOLD_CHARS {
        InjectionMode::Typing
    } else {
        InjectionMode::ClipboardPaste
    }
}

/// The other mode.
pub open spec fn other_mode(mode: InjectionMode) -> InjectionMode {
    match mode {
        InjectionMode::Typing => InjectionMode::ClipboardPaste,
        InjectionMode::ClipboardPaste => InjectionMode::Typing,
    }
}

/// The `Debug` name of a mode.
pub open spec fn mode_name(mode: InjectionMode) -> Seq<char> {
    match mode {
        InjectionMode::Typing => "Typing"@,
        InjectionMode::ClipboardPaste => "ClipboardPaste"@,
    }
}

/// The error reported when both modes failed.
pub open spec fn both_failed_message(
    preferred: InjectionMode,
    primary: Seq<char>,
    fallback: InjectionMode,
    secondary: Seq<char>,
) -> Seq<char> {
    "Primary "@ + mode_name(preferred) + " injection failed: "@ + primary + "; fallback "@
        + mode_name(fallback) + " injection failed: "@ + secondary
}

/// The UTF-16 encoding of `s` (`str::encode_utf16`).
pub open spec fn utf16_units(s: Seq<char>) -> Seq<u16>
    decreases s.len(),
{
    if s.len() == 0 {
        Seq::empty()
    } else {
        let prev = utf16_units(s.drop_last());
        let u = s.last() as u32;
        if u < 0x10000 {
            prev.push(u as u16)
        } else {
            let v = u - 0x10000;
            prev.push((0xD800 + v / 1024) as u16).push((0xDC00 + v % 1024) as u16)
        }
    }
}

/// The events that type the code units `units`: a key-down and a key-up per unit.
pub open spec fn typing_events(units: Seq<u16>) -> Seq<KeyInput>
    decreases units.len(),
{
    if units.len() == 0 {
        Seq::empty()
    } else {
        typing_events(units.drop_last()).push(
            KeyInput { vk: 0, scan: units.last(), flags: KEYEVENTF_UNICODE },
        ).push(KeyInput { vk: 0, scan: units.last(), flags: KEYEVENTF_UNICODE | KEYEVENTF_KEYUP })
    }
}

impl TextInjector {
    /// Typing for texts shorter than `PASTE_THRESHOLD_CHARS` characters, pasting otherwise.
    pub fn preferred_mode(text: &str) -> (r: InjectionMode)
        ensures
            r == preferred_mode_for(text@.len()),
    {
        let n = chars_of(text).len();
        if n < PASTE_THRESHOLD_CHARS {
            InjectionMode::Typing
        } else {
            InjectionMode::ClipboardPaste
        }
    }

    /// The mode to try when `mode` failed.
    pub fn fallback_mode(mode: InjectionMode) -> (r: InjectionMode)
        ensures
            r == other_mode(mode),
    {
        match mode {
            InjectionMode::Typing => InjectionMode::ClipboardPaste,
            InjectionMode::ClipboardPaste => InjectionMode::Typing,
        }
    }

    fn mode_label(mode: InjectionMode) -> (r: &'static str)
        ensures
            r@ == mode_name(mode),
    {
        match mode {
            InjectionMode::Typing => "Typing",
            InjectionMode::ClipboardPaste => "ClipboardPaste",
        }
    }

    /// Starts inserting `text`: an empty text is done at once and nothing is sent;
    /// any other text is sent on its preferred path first.
    pub fn inject(text: String) -> (r: (Injection, InjectionAction))
        ensures
            r.0.text == text,
            r.0.preferred == preferred_mode_for(text@.len()),
            text@.len() == 0 ==> r.0.phase is Finished && r.1 == InjectionAction::Finish(
                Ok::<(), String>(()),
            ),
            text@.len() > 0 ==> r.0.phase is Preferred && r.1 == (InjectionAction::Send {
                text,
                mode: preferred_mode_for(text@.len()),
            }),
    {
        let preferred = Self::preferred_mode(text.as_str());
        if text.as_str().is_empty() {
            let action = InjectionAction::Finish(Ok(()));
            return (Injection { text, preferred, phase: InjectionPhase::Finished }, action);
        }
        let action = InjectionAction::Send { text: text.clone(), mode: preferred };
        (Injection { text, preferred, phase: InjectionPhase::Preferred }, action)
    }

    /// What follows a `Send` of `injection` that ended with `outcome`: a success
    /// ends the insertion; a failure of the preferred path sends the text once on
    /// the other path; a failure of that one too ends with both errors. Once the
    /// insertion is over, nothing more is sent.
    pub fn after_send(injection: Injection, outcome: Result<(), String>) -> (r: (
        Injection,
        Option<InjectionAction>,
    ))
        ensures
            r.0.text == injection.text,
            r.0.preferred == injection.preferred,
            match injection.phase {
                InjectionPhase::Preferred => match outcome {
                    Ok(()) => r.0.phase is Finished && r.1 == Some(
                        InjectionAction::Finish(Ok::<(), String>(())),
                    ),
                    Err(e1) => r.0.phase == InjectionPhase::Fallback(e1) && r.1 == Some(
                        InjectionAction::Send {
                            text: injection.text,
                            mode: other_mode(injection.preferred),
                        },
                    ),
                },
                InjectionPhase::Fallback(e1) => r.0.phase is Finished && match outcome {
                    Ok(()) => r.1 == Some(InjectionAction::Finish(Ok::<(), String>(()))),
                    Err(e2) => r.1 matches Some(InjectionAction::Finish(Err(m))) && m@
                        == both_failed_message(
                        injection.preferred,
                        e1@,
                        other_mode(injection.preferred),
                        e2@,
                    ),
                },
                InjectionPhase::Finished => r.0.phase is Finished && r.1 is None,
            },
    {
        let Injection { text, preferred, phase } = injection;
        match phase {
            InjectionPhase::Preferred => match outcome {
                Ok(()) => (
                    Injection { text, preferred, phase: InjectionPhase::Finished },
                    Some(InjectionAction::Finish(Ok(()))),
                ),
                Err(primary_error) => {
                    let fallback = Self::fallback_mode(preferred);
                    let action = InjectionAction::Send { text: text.clone(), mode: fallback };
                    (
                        Injection { text, preferred, phase: InjectionPhase::Fallback(primary_error) },
                        Some(action),
                    )
                },
            },
            InjectionPhase::Fallback(primary_error) => {
                let result = match outcome {
                    Ok(()) => Ok(()),
                    Err(fallback_error) => {
                        let fallback = Self::fallback_mode(preferred);
                        let mut msg: Vec<char> = Vec::new();
                        append_str(&mut msg, "Primary ");
                        append_str(&mut msg, Self::mode_label(preferred));
                        append_str(&mut msg, " injection failed: ");
                        append_str(&mut msg, primary_error.as_str());
                        append_str(&mut msg, "; fallback ");
                        append_str(&mut msg, Self::mode_label(fallback));
                        append_str(&mut msg, " injection failed: ");
                        append_str(&mut msg, fallback_error.as_str());
                        Err(string_of(msg.as_slice()))
                    },
                };
                (
                    Injection { text, preferred, phase: InjectionPhase::Finished },
                    Some(InjectionAction::Finish(result)),
                )
            },
            InjectionPhase::Finished => (
                Injection { text, preferred, phase: InjectionPhase::Finished },
                None,
            ),
        }
    }

    /// The keyboard events that type `text`: for every UTF-16 code unit, a Unicode
    /// key-down and a Unicode key-up carrying that unit.
    pub fn typing_inputs(text: &str) -> (r: Vec<KeyInput>)
        ensures
            r@ == typing_events(utf16_units(text@)),
    {
        let cs = chars_of(text);
        let mut r: Vec<KeyInput> = Vec::new();
        let mut i: usize = 0;
        while i < cs.len()
            invariant
                i <= cs.len(),
                cs@ == text@,
                r@ == typing_events(utf16_units(cs@.take(i as int))),
            decreases cs.len() - i,
        {
            let ghost before = cs@.take(i as int);
            assert(cs@.take(i + 1).drop_last() =~= before);
            let u = cs[i] as u32;
            if u < 0x10000 {
                let unit = u as u16;
                r.push(KeyInput { vk: 0, scan: unit, flags: KEYEVENTF_UNICODE });
                r.push(KeyInput { vk: 0, scan: unit, flags: KEYEVENTF_UNICODE | KEYEVENTF_KEYUP });
                assert(utf16_units(cs@.take(i + 1)) == utf16_units(before).push(unit));
                assert(utf16_units(before).push(unit).drop_last() =~= utf16_units(before));
                assert(typing_events(utf16_units(before).push(unit)) == typing_events(
                    utf16_units(before),
                ).push(KeyInput { vk: 0, scan: unit, flags: KEYEVENTF_UNICODE }).push(
                    KeyInput { vk: 0, scan: unit, flags: KEYEVENTF_UNICODE | KEYEVENTF_KEYUP },
                ));
            } else {
                proof {
                    vstd::utf8::char_is_scalar(cs@[i as int]);
                }
                let v = u - 0x10000;
                let high = (0xD800 + v / 1024) as u16;
                let low = (0xDC00 + v % 1024) as u16;
                r.push(KeyInput { vk: 0, scan: high, flags: KEYEVENTF_UNICODE });
                r.push(KeyInput { vk: 0, scan: high, flags: KEYEVENTF_UNICODE | KEYEVENTF_KEYUP });
                r.push(KeyInput { vk: 0, scan: low, flags: KEYEVENTF_UNICODE });
                r.push(KeyInput { vk: 0, scan: low, flags: KEYEVENTF_UNICODE | KEYEVENTF_KEYUP });
                let ghost us = utf16_units(before);
                assert(utf16_units(cs@.take(i + 1)) == us.push(high).push(low));
                assert(us.push(high).push(low).drop_last() =~= us.push(high));
                assert(us.push(high).drop_last() =~= us);
                assert(typing_events(us.push(high)) == typing_events(us).push(
                    KeyInput { vk: 0, scan: high, flags: KEYEVENTF_UNICODE },
                ).push(KeyInput { vk: 0, scan: high, flags: KEYEVENTF_UNICODE | KEYEVENTF_KEYUP }));
                assert(typing_events(us.push(high).push(low)) == typing_events(us.push(high)).push(
                    KeyInput { vk: 0, scan: low, flags: KEYEVENTF_UNICODE },
                ).push(KeyInput { vk: 0, scan: low, flags: KEYEVENTF_UNICODE | KEYEVENTF_KEYUP }));
            }
            i += 1;
        }
        assert(cs@.take(cs@.len() as int) =~= cs@);
        r
    }

    /// The keyboard events of a Ctrl+V paste: Ctrl down, V down, V up, Ctrl up.
    pub fn paste_inputs() -> (r: Vec<KeyInput>)
        ensures
            r@ == seq![
                KeyInput { vk: VK_CONTROL, scan: 0, flags: 0 },
                KeyInput { vk: VK_V, scan: 0, flags: 0 },
                KeyInput { vk: VK_V, scan: 0, flags: KEYEVENTF_KEYUP },
                KeyInput { vk: VK_CONTROL, scan: 0, flags: KEYEVENTF_KEYUP },
            ],
    {
        let mut r: Vec<KeyInput> = Vec::new();
        r.push(KeyInput { vk: VK_CONTROL, scan: 0, flags: 0 });
        r.push(KeyInput { vk: VK_V, scan: 0, flags: 0 });
        r.push(KeyInput { vk: VK_V, scan: 0, flags: KEYEVENTF_KEYUP });
        r.push(KeyInput { vk: VK_CONTROL, scan: 0, flags: KEYEVENTF_KEYUP });
        assert(r@ =~= seq![
            KeyInput { vk: VK_CONTROL, scan: 0, flags: 0 },
            KeyInput { vk: VK_V, scan: 0, flags: 0 },
            KeyInput { vk: VK_V, scan: 0, flags: KEYEVENTF_KEYUP },
            KeyInput { vk: VK_CONTROL, scan: 0, flags: KEYEVENTF_KEYUP },
        ]);
        r
    }
}

// ---------------------------------------------------------------------------
// Pasting through the clipboard

/// Milliseconds the target gets to process Ctrl+V before the clipboard is restored.
pub const PASTE_SETTLE_MILLIS: u64 = 150;

/// The outcome of a `SendInput` call that sent `sent` of `total` events; `what`
/// names the events in the error.
pub fn send_input_result(sent: u32, total: u32, what: &str) -> (r: Result<(), String>)
    ensures
        sent == total ==> r is Ok,
        sent != total ==> (r matches Err(m) && m@ == "SendInput sent "@ + decimal(sent as nat)
            + " of "@ + decimal(total as nat) + " "@ + what@),
{
    if sent == total {
        return Ok(());
    }
    let mut out: Vec<char> = Vec::new();
    append_str(&mut out, "SendInput sent ");
    append_chars(&mut out, decimal_of(sent as u64).as_slice());
    append_str(&mut out, " of ");
    append_chars(&mut out, decimal_of(total as u64).as_slice());
    append_str(&mut out, " ");
    append_str(&mut out, what);
    Err(string_of(out.as_slice()))
}

/// How far a paste through the clipboard has got.
#[derive(Debug, PartialEq, Eq)]
pub enum PastePhase {
    /// The clipboard's contents are being saved; `text` is to be pasted.
    Saving { text: String },
    /// The clipboard is being set to the text.
    Setting,
    /// Ctrl+V is being sent.
    Sending,
    /// The saved contents are being put back; `failure` is why the paste failed, if it did.
    Restoring { failure: Option<String> },
    /// The paste is over.
    Finished,
}

/// What happened to the last request of a paste.
#[derive(Debug)]
pub enum PasteEvent {
    Saved(Result<(), String>),
    ClipboardSet(Result<(), String>),
    Sent(Result<(), String>),
    Restored(Result<(), String>),
}

/// What the surroundings do next in a paste, in order.
#[derive(Debug, PartialEq, Eq)]
pub enum PasteAction {
    /// Save every format on the clipboard.
    SaveClipboard,
    /// Empty the clipboard and put this text on it.
    SetClipboard(String),
    /// Send these key events.
    SendKeys(Vec<KeyInput>),
    /// Wait this many milliseconds.
    Wait { millis: u64 },
    /// Put the saved formats back on the clipboard.
    RestoreClipboard,
    /// The paste is over with this result.
    Finish(Result<(), String>),
}

/// The Ctrl+V key events.
pub open spec fn paste_keys() -> Seq<KeyInput> {
    seq![
        KeyInput { vk: VK_CONTROL, scan: 0, flags: 0 },
        KeyInput { vk: VK_V, scan: 0, flags: 0 },
        KeyInput { vk: VK_V, scan: 0, flags: KEYEVENTF_KEYUP },
        KeyInput { vk: VK_CONTROL, scan: 0, flags: KEYEVENTF_KEYUP },
    ]
}

impl TextInjector {
    /// Starts pasting `text`: the clipboard is saved first.
    pub fn paste_text(text: String) -> (r: (PastePhase, PasteAction))
        ensures
            r == (PastePhase::Saving { text }, PasteAction::SaveClipboard),
    {
        (PastePhase::Saving { text }, PasteAction::SaveClipboard)
    }

    /// One step of a paste. The clipboard is only overwritten once its contents are
    /// saved; from then on the saved contents are always put back, after a pause
    /// when Ctrl+V went out and at once when setting the clipboard or sending
    /// failed. A failure to save the clipboard ends the paste with that error; a
    /// failure to set it or to send ends it with that error whatever the restore
    /// does; otherwise the restore's outcome is the result. An event that does not
    /// belong to the phase changes nothing.
    pub fn paste_step(phase: PastePhase, event: PasteEvent) -> (r: (PastePhase, Vec<PasteAction>))
        ensures
            match (phase, event) {
                (PastePhase::Saving { text }, PasteEvent::Saved(Ok(()))) => r.0 == PastePhase::Setting
                    && r.1@ == seq![PasteAction::SetClipboard(text)],
                (PastePhase::Saving { .. }, PasteEvent::Saved(Err(e))) => r.0 == PastePhase::Finished
                    && r.1@ == seq![PasteAction::Finish(Err::<(), String>(e))],
                (PastePhase::Setting, PasteEvent::ClipboardSet(Ok(()))) => {
                    &&& r.0 == PastePhase::Sending
                    &&& r.1@.len() == 1
                    &&& r.1@[0] matches PasteAction::SendKeys(keys) && keys@ == paste_keys()
                },
                (PastePhase::Setting, PasteEvent::ClipboardSet(Err(e))) => r.0 == (PastePhase::Restoring {
                    failure: Some(e),
                }) && r.1@ == seq![PasteAction::RestoreClipboard],
                (PastePhase::Sending, PasteEvent::Sent(Ok(()))) => r.0 == (PastePhase::Restoring {
                    failure: None,
                }) && r.1@ == seq![
                    PasteAction::Wait { millis: PASTE_SETTLE_MILLIS },
                    PasteAction::RestoreClipboard,
                ],
                (PastePhase::Sending, PasteEvent::Sent(Err(e))) => r.0 == (PastePhase::Restoring {
                    failure: Some(e),
                }) && r.1@ == seq![PasteAction::RestoreClipboard],
                (PastePhase::Restoring { failure }, PasteEvent::Restored(restored)) => r.0
                    == PastePhase::Finished && r.1@ == seq![
                    PasteAction::Finish(
                        match failure {
                            Some(e) => Err::<(), String>(e),
                            None => restored,
                        },
                    ),
                ],
                (other, _) => r.0 == other && r.1@.len() == 0,
            },
    {
        let mut actions: Vec<PasteAction> = Vec::new();
        match phase {
            PastePhase::Saving { text } => match event {
                PasteEvent::Saved(Ok(())) => {
                    actions.push(PasteAction::SetClipboard(text));
                    (PastePhase::Setting, actions)
                },
                PasteEvent::Saved(Err(e)) => {
                    actions.push(PasteAction::Finish(Err(e)));
                    (PastePhase::Finished, actions)
                },
                _ => (PastePhase::Saving { text }, actions),
            },
            PastePhase::Setting => match event {
                PasteEvent::ClipboardSet(Ok(())) => {
                    actions.push(PasteAction::SendKeys(Self::paste_inputs()));
                    (PastePhase::Sending, actions)
                },
                PasteEvent::ClipboardSet(Err(e)) => {
                    actions.push(PasteAction::RestoreClipboard);
                    (PastePhase::Restoring { failure: Some(e) }, actions)
                },
                _ => (PastePhase::Setting, actions),
            },
            PastePhase::Sending => match event {
                PasteEvent::Sent(Ok(())) => {
                    actions.push(PasteAction::Wait { millis: PASTE_SETTLE_MILLIS });
                    actions.push(PasteAction::RestoreClipboard);
                    (PastePhase::Restoring { failure: None }, actions)
                },
                PasteEvent::Sent(Err(e)) => {
                    actions.push(PasteAction::RestoreClipboard);
                    (PastePhase::Restoring { failure: Some(e) }, actions)
                },
                _ => (PastePhase::Sending, actions),
            },
            PastePhase::Restoring { failure } => match event {
                PasteEvent::Restored(restored) => {
                    let result = match failure {
                        Some(e) => Err(e),
                        None => restored,
                    };
                    actions.push(PasteAction::Finish(result));
                    (PastePhase::Finished, actions)
                },
                _ => (PastePhase::Restoring { failure }, actions),
            },
            PastePhase::Finished => (PastePhase::Finished, actions),
        }
    }
}

/// The fallback is always the other injection path, and falling back twice comes
/// back to the first one.
pub proof fn law_fallback_switches_path(mode: InjectionMode)
    ensures
        other_mode(mode) != mode,
        other_mode(other_mode(mode)) == mode,
{
}

/// Longer texts are never typed when a shorter one is pasted: the preferred path
/// depends only on the length, with typing below the threshold and pasting from it on.
pub proof fn law_preferred_mode_by_length(short: nat, long: nat)
    requires
        short <= long,
    ensures
        preferred_mode_for(short) == InjectionMode::ClipboardPaste ==> preferred_mode_for(long)
            == InjectionMode::ClipboardPaste,
        preferred_mode_for(long) == InjectionMode::Typing ==> preferred_mode_for(short)
            == InjectionMode::Typing,
{
}

} // verus!
