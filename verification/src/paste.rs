use vstd::prelude::*;

use crate::settings::Settings;
use crate::text::{push_char, str_eq};

verus! {

/// The window that dictated text goes to: its title, its icon as base64
/// PNG, and its handle.
#[derive(Debug, Clone)]
pub struct AppInfo {
    pub title: String,
    pub icon_base64: String,
    pub hwnd: isize,
}

/// How the text reaches the target window.
#[derive(Debug, Clone, Copy, PartialEq, Eq, Structural)]
pub enum InputAction {
    /// Typed character by character.
    TypeText,
    /// Pasted with Ctrl+V.
    PasteCtrlV,
    /// Pasted as plain text with Ctrl+Shift+V.
    PasteCtrlShiftV,
    /// Pasted with Shift+Insert.
    PasteShiftInsert,
}

/// What becomes of the clipboard once the text is in.
#[derive(Debug, Clone, Copy, PartialEq, Eq, Structural)]
pub enum ClipboardFinish {
    /// Leave it as it is.
    Untouched,
    /// Put the previous clipboard text back.
    RestorePrevious,
    /// Make sure it holds the dictated text.
    KeepText,
}

/// A key sent after the text.
#[derive(Debug, Clone, Copy, PartialEq, Eq, Structural)]
pub enum SendAction {
    Nothing,
    Enter,
    CtrlEnter,
}

/// One step of delivering dictated text.
#[derive(Debug, Clone, Copy, PartialEq, Eq, Structural)]
pub enum PasteStep {
    /// Read the clipboard's text, to restore it later.
    ReadClipboard,
    /// Put the text on the clipboard.
    WriteClipboard,
    /// Type or paste the text into the target window.
    Input(InputAction),
    /// Settle the clipboard as the "clipboard after" policy says.
    FinishClipboard,
    /// Press the key sent after the text.
    Send(SendAction),
}

/// The steps of a delivery, in the order they are performed: the
/// clipboard is read, then written; a copy-only delivery stops there;
/// otherwise the text goes in, the clipboard is settled, and only then is
/// the key after the text (if any) sent.
pub open spec fn paste_steps(
    read: bool,
    write: bool,
    copy_only: bool,
    input: InputAction,
    send: SendAction,
) -> Seq<PasteStep> {
    let head = (if read { seq![PasteStep::ReadClipboard] } else { Seq::<PasteStep>::empty() }) + (if write {
        seq![PasteStep::WriteClipboard]
    } else {
        Seq::<PasteStep>::empty()
    });
    if copy_only {
        head
    } else {
        head + seq![PasteStep::Input(input), PasteStep::FinishClipboard] + (if send == SendAction::Nothing {
            Seq::<PasteStep>::empty()
        } else {
            seq![PasteStep::Send(send)]
        })
    }
}

/// The order of a delivery: the clipboard is read before it is written,
/// written before the text goes in, the text goes in before the clipboard
/// is settled, and the clipboard is settled before the key after the text
/// is sent; no step occurs twice.
pub open spec fn paste_order(steps: Seq<PasteStep>) -> bool {
    &&& forall|i: int, j: int|
        #![trigger steps[i], steps[j]]
        0 <= i < steps.len() && 0 <= j < steps.len() && steps[i] == PasteStep::ReadClipboard && steps[j]
            == PasteStep::WriteClipboard ==> i < j
    &&& forall|i: int, j: int|
        #![trigger steps[i], steps[j]]
        0 <= i < steps.len() && 0 <= j < steps.len() && steps[i] == PasteStep::WriteClipboard && steps[j] is Input
            ==> i < j
    &&& forall|i: int, j: int|
        #![trigger steps[i], steps[j]]
        0 <= i < steps.len() && 0 <= j < steps.len() && steps[i] is Input && steps[j] == PasteStep::FinishClipboard
            ==> i < j
    &&& forall|i: int, j: int|
        #![trigger steps[i], steps[j]]
        0 <= i < steps.len() && 0 <= j < steps.len() && steps[i] == PasteStep::FinishClipboard && steps[j] is Send
            ==> i < j
    &&& steps.no_duplicates()
}

/// What a delivery does, step by step: it reads the clipboard when asked,
/// writes it when asked, and, unless it is copy-only, always puts the text
/// in with the chosen input and settles the clipboard, then sends the
/// chosen key if there is one; a copy-only delivery types, settles and
/// sends nothing. Each step occurs exactly when these conditions say.
pub proof fn lemma_paste_steps_deliver(read: bool, write: bool, copy_only: bool, input: InputAction, send: SendAction)
    ensures
        ({
            let s = paste_steps(read, write, copy_only, input, send);
            &&& s.contains(PasteStep::ReadClipboard) <==> read
            &&& s.contains(PasteStep::WriteClipboard) <==> write
            &&& s.contains(PasteStep::Input(input)) <==> !copy_only
            &&& s.contains(PasteStep::FinishClipboard) <==> !copy_only
            &&& s.contains(PasteStep::Send(send)) <==> (!copy_only && send != SendAction::Nothing)
            &&& forall|i: int| 0 <= i < s.len() ==> (#[trigger] s[i] is Input ==> s[i] == PasteStep::Input(input))
                && (s[i] is Send ==> s[i] == PasteStep::Send(send))
        }),
{
    let s = paste_steps(read, write, copy_only, input, send);
    let r = PasteStep::ReadClipboard;
    let w = PasteStep::WriteClipboard;
    let p = PasteStep::Input(input);
    let f = PasteStep::FinishClipboard;
    let k = PasteStep::Send(send);
    let tail = if copy_only {
        Seq::<PasteStep>::empty()
    } else if send == SendAction::Nothing {
        seq![p, f]
    } else {
        seq![p, f, k]
    };
    let full = if read && write {
        seq![r, w] + tail
    } else if read {
        seq![r] + tail
    } else if write {
        seq![w] + tail
    } else {
        tail
    };
    assert(s =~= full);
    if read {
        assert(s[0] == r);
    }
    if write {
        assert(s[if read { 1int } else { 0int }] == w);
    }
    let h: int = (if read { 1int } else { 0int }) + (if write { 1int } else { 0int });
    if !copy_only {
        assert(s[h] == p);
        assert(s[h + 1] == f);
        if send != SendAction::Nothing {
            assert(s[h + 2] == k);
        }
    }
}

/// Every delivery plan is in order.
pub proof fn lemma_paste_steps_ordered(read: bool, write: bool, copy_only: bool, input: InputAction, send: SendAction)
    ensures
        paste_order(paste_steps(read, write, copy_only, input, send)),
{
    let s = paste_steps(read, write, copy_only, input, send);
    let r = PasteStep::ReadClipboard;
    let w = PasteStep::WriteClipboard;
    let p = PasteStep::Input(input);
    let f = PasteStep::FinishClipboard;
    let k = PasteStep::Send(send);
    let tail = if copy_only {
        Seq::<PasteStep>::empty()
    } else if send == SendAction::Nothing {
        seq![p, f]
    } else {
        seq![p, f, k]
    };
    let full = if read && write {
        seq![r, w] + tail
    } else if read {
        seq![r] + tail
    } else if write {
        seq![w] + tail
    } else {
        tail
    };
    assert(s =~= full);
}

/// The steps of delivering dictated text.
#[derive(Debug)]
pub struct PastePlan {
    /// The text as delivered (with the trailing space, if configured).
    pub text: String,
    /// Read the clipboard first, to restore it later.
    pub read_previous: bool,
    /// Put the text on the clipboard.
    pub write_clipboard: bool,
    /// Stop after the clipboard: the user pastes by hand.
    pub copy_only: bool,
    pub input: InputAction,
    pub send: SendAction,
    /// The steps to perform, in order.
    pub steps: Vec<PasteStep>,
}

/// The input step for an input method that is not "copy only".
pub open spec fn input_for(method: Seq<char>) -> InputAction {
    if method == "type_chars"@ {
        InputAction::TypeText
    } else if method == "paste_raw"@ {
        InputAction::PasteCtrlShiftV
    } else if method == "paste_shift_ins"@ {
        InputAction::PasteShiftInsert
    } else {
        InputAction::PasteCtrlV
    }
}

/// The key sent after the text for a "send after" setting.
pub open spec fn send_for(send_after: Seq<char>) -> SendAction {
    if send_after == "enter"@ {
        SendAction::Enter
    } else if send_after == "ctrl_enter"@ {
        SendAction::CtrlEnter
    } else {
        SendAction::Nothing
    }
}

/// Plans the delivery of `text` under the given settings.
pub fn plan_paste(text: &str, settings: &Settings) -> (plan: PastePlan)
    ensures
        ({
            let method = settings.text_input_method@;
            let copy_only = method == "copy_only"@;
            let typing = method == "type_chars"@;
            &&& plan.text@ == (if settings.trailing_space && !copy_only { text@.push(' ') } else { text@ })
            &&& plan.copy_only == copy_only
            &&& plan.read_previous == (!typing || settings.clipboard_after@ == "restore"@)
            &&& plan.write_clipboard == (!typing || settings.clipboard_after@ == "keep"@ || copy_only)
            &&& plan.input == input_for(method)
            &&& plan.send == send_for(settings.send_after@)
        }),
        plan.steps@ == paste_steps(plan.read_previous, plan.write_clipboard, plan.copy_only, plan.input, plan.send),
        paste_order(plan.steps@),
        !plan.copy_only ==> plan.steps@.contains(PasteStep::Input(plan.input)) && plan.steps@.contains(
            PasteStep::FinishClipboard),
        plan.copy_only ==> plan.steps@.last() == PasteStep::WriteClipboard,
{
    let method = settings.text_input_method.as_str();
    let copy_only = str_eq(method, "copy_only");
    let typing = str_eq(method, "type_chars");
    let mut out = text.to_owned();
    if settings.trailing_space && !copy_only {
        push_char(&mut out, ' ');
    }
    let restore = str_eq(settings.clipboard_after.as_str(), "restore");
    let keep = str_eq(settings.clipboard_after.as_str(), "keep");
    let input = if typing {
        InputAction::TypeText
    } else if str_eq(method, "paste_raw") {
        InputAction::PasteCtrlShiftV
    } else if str_eq(method, "paste_shift_ins") {
        InputAction::PasteShiftInsert
    } else {
        InputAction::PasteCtrlV
    };
    let send_after = settings.send_after.as_str();
    let send = if str_eq(send_after, "enter") {
        SendAction::Enter
    } else if str_eq(send_after, "ctrl_enter") {
        SendAction::CtrlEnter
    } else {
        SendAction::Nothing
    };
    let read_previous = !typing || restore;
    let write_clipboard = !typing || keep || copy_only;
    let mut steps: Vec<PasteStep> = Vec::new();
    if read_previous {
        steps.push(PasteStep::ReadClipboard);
    }
    if write_clipboard {
        steps.push(PasteStep::WriteClipboard);
    }
    if !copy_only {
        steps.push(PasteStep::Input(input));
        steps.push(PasteStep::FinishClipboard);
        if send != SendAction::Nothing {
            steps.push(PasteStep::Send(send));
        }
    }
    proof {
        let head = (if read_previous { seq![PasteStep::ReadClipboard] } else { Seq::<PasteStep>::empty() }) + (
        if write_clipboard {
            seq![PasteStep::WriteClipboard]
        } else {
            Seq::<PasteStep>::empty()
        });
        if copy_only {
            assert(steps@ =~= head);
        } else if send == SendAction::Nothing {
            assert(steps@ =~= head + seq![PasteStep::Input(input), PasteStep::FinishClipboard]
                + Seq::<PasteStep>::empty());
        } else {
            assert(steps@ =~= head + seq![PasteStep::Input(input), PasteStep::FinishClipboard]
                + seq![PasteStep::Send(send)]);
        }
        lemma_paste_steps_ordered(read_previous, write_clipboard, copy_only, input, send);
        lemma_paste_steps_deliver(read_previous, write_clipboard, copy_only, input, send);
    }
    PastePlan { text: out, read_previous, write_clipboard, copy_only, input, send, steps }
}

/// The clipboard policy after delivery: "restore" puts a non-empty
/// previous text back (typing never touched the clipboard, so there is
/// nothing to restore then); "keep" makes sure the dictated text stays;
/// any other policy leaves the clipboard alone.
pub open spec fn clipboard_policy(policy: Seq<char>, previous_text: Seq<char>, is_typing: bool) -> ClipboardFinish {
    if policy == "restore"@ {
        if is_typing || previous_text.len() == 0 {
            ClipboardFinish::Untouched
        } else {
            ClipboardFinish::RestorePrevious
        }
    } else if policy == "keep"@ {
        ClipboardFinish::KeepText
    } else {
        ClipboardFinish::Untouched
    }
}

/// Decides what to do with the clipboard once the text is delivered.
pub fn clipboard_finish(policy: &str, previous_text: &str, is_typing: bool) -> (r: ClipboardFinish)
    ensures
        r == clipboard_policy(policy@, previous_text@, is_typing),
{
    if str_eq(policy, "restore") {
        if is_typing || previous_text.is_empty() {
            ClipboardFinish::Untouched
        } else {
            ClipboardFinish::RestorePrevious
        }
    } else if str_eq(policy, "keep") {
        ClipboardFinish::KeepText
    } else {
        ClipboardFinish::Untouched
    }
}

/// The user's clipboard comes back after pasting under the default
/// "restore" policy: whenever the text was pasted through the clipboard
/// and the clipboard held text before, that text is put back.
pub proof fn lemma_clipboard_restored(previous_text: Seq<char>)
    requires
        previous_text.len() > 0,
    ensures
        clipboard_policy("restore"@, previous_text, false) == ClipboardFinish::RestorePrevious,
{
}

} // verus!
