use vispeak::caret_position::{CaretKind, CaretRect};
use vispeak::ducking::{
    begin_duck, begin_restore, protected_process_name, session_key, should_skip_session,
    snapshot_key, special_process_name, unnamed_process_name,
};
use vispeak::overlay::{
    launched_at_login, overlay_anchor, overlay_logical_size, show_main_window_at_launch,
    tray_labels, tray_language, AnchorKind,
};
use vispeak::paste::{clipboard_finish, plan_paste, ClipboardFinish, InputAction, PasteStep, SendAction};
use vispeak::settings::Settings;
use vispeak::text::{contains_str, i64_to_decimal, parse_i64, replace_str, split_on_char, trim_str};
use vispeak::vad::{speech_window, vad_chunk_count, vad_context_size};

#[test]
fn paste_plans() {
    let mut s = Settings::default();
    let p = plan_paste("hello", &s);
    assert_eq!(p.text, "hello");
    assert!(p.read_previous && p.write_clipboard && !p.copy_only);
    assert_eq!(p.input, InputAction::PasteCtrlV);
    assert_eq!(p.send, SendAction::Nothing);
    assert_eq!(
        p.steps,
        vec![
            PasteStep::ReadClipboard,
            PasteStep::WriteClipboard,
            PasteStep::Input(InputAction::PasteCtrlV),
            PasteStep::FinishClipboard,
        ]
    );

    s.trailing_space = true;
    s.text_input_method = "type_chars".to_string();
    s.clipboard_after = "keep".to_string();
    s.send_after = "ctrl_enter".to_string();
    let p = plan_paste("hi", &s);
    assert_eq!(p.text, "hi ");
    assert!(!p.read_previous && p.write_clipboard);
    assert_eq!(p.input, InputAction::TypeText);
    assert_eq!(p.send, SendAction::CtrlEnter);
    assert_eq!(
        p.steps,
        vec![
            PasteStep::WriteClipboard,
            PasteStep::Input(InputAction::TypeText),
            PasteStep::FinishClipboard,
            PasteStep::Send(SendAction::CtrlEnter),
        ]
    );

    s.text_input_method = "copy_only".to_string();
    let p = plan_paste("hi", &s);
    assert_eq!(p.text, "hi");
    assert!(p.copy_only && p.write_clipboard);
    assert_eq!(p.steps, vec![PasteStep::ReadClipboard, PasteStep::WriteClipboard]);

    s.text_input_method = "paste_raw".to_string();
    s.send_after = "enter".to_string();
    let p = plan_paste("x", &s);
    assert_eq!(p.input, InputAction::PasteCtrlShiftV);
    assert_eq!(p.send, SendAction::Enter);
    // The clipboard is settled before Enter is pressed.
    assert_eq!(
        p.steps,
        vec![
            PasteStep::ReadClipboard,
            PasteStep::WriteClipboard,
            PasteStep::Input(InputAction::PasteCtrlShiftV),
            PasteStep::FinishClipboard,
            PasteStep::Send(SendAction::Enter),
        ]
    );
    s.text_input_method = "paste_shift_ins".to_string();
    assert_eq!(plan_paste("x", &s).input, InputAction::PasteShiftInsert);
}

#[test]
fn clipboard_after_pasting() {
    assert_eq!(clipboard_finish("restore", "СТАРОЕ", false), ClipboardFinish::RestorePrevious);
    assert_eq!(clipboard_finish("restore", "СТАРОЕ", true), ClipboardFinish::Untouched);
    assert_eq!(clipboard_finish("restore", "", false), ClipboardFinish::Untouched);
    assert_eq!(clipboard_finish("keep", "СТАРОЕ", false), ClipboardFinish::KeepText);
    assert_eq!(clipboard_finish("clear", "СТАРОЕ", false), ClipboardFinish::Untouched);
}

#[test]
fn speech_trimming_window() {
    assert_eq!(vad_context_size(16000), 64);
    assert_eq!(vad_context_size(8000), 32);
    assert_eq!(vad_chunk_count(1023), 1);
    // 16 kHz: six chunks of padding.
    let mut speech = vec![false; 40];
    speech[10] = true;
    speech[20] = true;
    assert_eq!(speech_window(40 * 512 + 100, 16000, &speech), Some((4 * 512, 27 * 512)));
    let mut edge = vec![false; 10];
    edge[1] = true;
    edge[8] = true;
    assert_eq!(speech_window(10 * 512, 16000, &edge), Some((0, 10 * 512)));
    assert_eq!(speech_window(10 * 512, 16000, &vec![false; 10]), None);
    assert_eq!(speech_window(100, 16000, &vec![]), None);
}

#[test]
fn ducking_rules() {
    assert!(should_skip_session(10, 10, false, "app.exe"));
    assert!(should_skip_session(0, 10, false, "x"));
    assert!(should_skip_session(4, 10, false, "x"));
    assert!(should_skip_session(11, 10, true, "x"));
    assert!(should_skip_session(11, 10, false, "AudioDG.exe"));
    assert!(should_skip_session(11, 10, false, "svcHost.exe"));
    assert!(should_skip_session(11, 10, false, "PID: 11 (System/Protected)"));
    assert!(!should_skip_session(11, 10, false, "spotify.exe"));
    assert_eq!(special_process_name(0), Some("System Idle Process"));
    assert_eq!(special_process_name(4), Some("System"));
    assert_eq!(special_process_name(5), None);
    assert_eq!(protected_process_name(123), "PID: 123 (System/Protected)");
    assert_eq!(unnamed_process_name(7), "PID: 7");
    assert_eq!(session_key(900, 3), "900_3");
    assert_eq!(snapshot_key("chrome.exe", 900), "chrome.exe_900");
    let mut ducked = false;
    assert!(begin_duck(&mut ducked));
    assert!(!begin_duck(&mut ducked));
    assert!(begin_restore(&mut ducked, true));
    assert!(!ducked);
    assert!(!begin_restore(&mut ducked, false));
    let mut ducked = true;
    assert!(!begin_restore(&mut ducked, false));
    assert!(!ducked);
}

#[test]
fn overlay_placement() {
    assert_eq!(overlay_logical_size("mini"), (144, 82));
    assert_eq!(overlay_logical_size("compact"), (268, 96));
    assert_eq!(overlay_logical_size("full"), (392, 162));
    let caret = CaretRect::new(10, 10, 12, 30);
    assert_eq!(overlay_anchor(true, Some(caret), None), Some((caret, AnchorKind::Caret)));
    assert_eq!(overlay_anchor(false, Some(caret), None), None);
    let area = CaretRect::new(200, 100, 1200, 800);
    let expected = CaretRect { left: 200, top: 450, right: 1200, bottom: 450, kind: CaretKind::Area };
    assert_eq!(overlay_anchor(true, Some(area), Some((500, 450))), Some((expected, AnchorKind::AreaAtMouse)));
    assert_eq!(overlay_anchor(true, Some(area), Some((1500, 450))), None);
    assert_eq!(overlay_anchor(true, None, Some((500, 450))), None);
    assert_eq!(tray_language("system"), "en");
    assert_eq!(tray_language("ru"), "ru");
    assert_eq!(tray_labels("ru"), ("Настройки", "Выход"));
    assert_eq!(tray_labels("en"), ("Settings", "Quit"));
    assert!(show_main_window_at_launch(false, false));
    assert!(!show_main_window_at_launch(true, false));
    assert!(!show_main_window_at_launch(false, true));
    assert!(launched_at_login(&vec!["app".to_string(), "--autostart".to_string()]));
    assert!(!launched_at_login(&vec!["app".to_string()]));
}

#[test]
fn text_helpers() {
    assert_eq!(split_on_char("a+b", '+'), vec!["a".to_string(), "b".to_string()]);
    assert!(contains_str("CommandOrControl+K", "OrControl"));
    assert!(!contains_str("Control", "CommandOrControl"));
    assert!(contains_str("abc", ""));
    assert_eq!(replace_str("aXbXX", "X", "yy"), "ayybyyyy");
    assert_eq!(replace_str("aaa", "aa", "b"), "ba");
    assert_eq!(trim_str("\t x y \r\n"), "x y");
    assert_eq!(i64_to_decimal(-120), "-120");
    assert_eq!(parse_i64("  1"), None);
    assert_eq!(parse_i64("-0"), Some(0));
    assert_eq!(parse_i64("+"), None);
    assert_eq!(parse_i64(""), None);
}
