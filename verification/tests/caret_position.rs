use vispeak::caret_position::{
    caret_attempts, choose_validated_caret, needs_win32_probe, process_file_name, validated_caret, select_caret, uia_should_retry, validate_caret_rect,
    win32_caret_usable, CaretKind, CaretMethod, CaretRect, CaretRejection, ScreenRect, SeenWindows,
};

#[test]
fn test_caret_rect_classification() {
    assert_eq!(CaretRect::new(100, 100, 102, 120).kind, CaretKind::Caret);
    assert_eq!(CaretRect::new(100, 100, 400, 130).kind, CaretKind::Field);
    assert_eq!(CaretRect::new(100, 100, 900, 600).kind, CaretKind::Area);
    assert_eq!(CaretRect::new(100, 100, 300, 200).kind, CaretKind::Area);
}

#[test]
fn classification_boundaries() {
    // Width of 4 is a caret whatever the height.
    assert_eq!(CaretRect::new(0, 0, 4, 1000).kind, CaretKind::Caret);
    // A short box at most twice as wide as tall is a caret.
    assert_eq!(CaretRect::new(0, 0, 80, 40).kind, CaretKind::Caret);
    assert_eq!(CaretRect::new(0, 0, 81, 40).kind, CaretKind::Field);
    // Field limits are inclusive.
    assert_eq!(CaretRect::new(0, 0, 4000, 80).kind, CaretKind::Field);
    assert_eq!(CaretRect::new(0, 0, 4001, 80).kind, CaretKind::Area);
    assert_eq!(CaretRect::new(0, 0, 4000, 81).kind, CaretKind::Area);
}

#[test]
fn area_from_original_overlay_test_is_area() {
    let area = CaretRect::new(200, 100, 1200, 800);
    assert_eq!(area.kind, CaretKind::Area);
}

fn caret(left: i32, top: i32, right: i32, bottom: i32) -> CaretRect {
    CaretRect::new(left, top, right, bottom)
}

#[test]
fn validation_rejects_bad_sizes() {
    assert_eq!(
        validate_caret_rect(&caret(10, 10, 5, 30), None, true),
        Err(CaretRejection::InvalidWidth(-5))
    );
    assert_eq!(
        validate_caret_rect(&caret(10, 10, 5011, 30), None, true),
        Err(CaretRejection::InvalidWidth(5001))
    );
    assert_eq!(
        validate_caret_rect(&caret(10, 10, 12, 10), None, true),
        Err(CaretRejection::InvalidHeight(0))
    );
    assert_eq!(
        validate_caret_rect(&caret(10, 10, 12, 3011), None, true),
        Err(CaretRejection::InvalidHeight(3001))
    );
}

#[test]
fn validation_against_window() {
    let win = ScreenRect { left: 100, top: 100, right: 500, bottom: 400 };
    assert_eq!(validate_caret_rect(&caret(200, 200, 202, 220), Some(win), true), Ok(()));
    // Within the 64 pixel tolerance.
    assert_eq!(validate_caret_rect(&caret(36, 200, 38, 220), Some(win), true), Ok(()));
    assert_eq!(
        validate_caret_rect(&caret(35, 200, 37, 220), Some(win), true),
        Err(CaretRejection::OutsideWindow)
    );
    // At the window's top-left corner: suspect.
    let r = validate_caret_rect(&caret(100, 100, 102, 120), Some(win), true);
    assert_eq!(r, Err(CaretRejection::Suspect));
    assert!(r.unwrap_err().is_suspect());
    // Off every monitor.
    assert_eq!(
        validate_caret_rect(&caret(200, 200, 202, 220), Some(win), false),
        Err(CaretRejection::OutsideMonitors)
    );
    assert!(!CaretRejection::OutsideMonitors.is_suspect());
}

#[test]
fn validation_without_window() {
    assert_eq!(validate_caret_rect(&caret(0, 0, 2, 20), None, true), Err(CaretRejection::Suspect));
    assert_eq!(validate_caret_rect(&caret(0, 5, 2, 20), None, true), Ok(()));
}

#[test]
fn win32_caret_box_checks() {
    assert!(win32_caret_usable(ScreenRect { left: 5, top: 5, right: 6, bottom: 20 }));
    assert!(win32_caret_usable(ScreenRect { left: 5, top: 5, right: 5, bottom: 20 }));
    assert!(!win32_caret_usable(ScreenRect { left: 5, top: 5, right: 4, bottom: 20 }));
    assert!(!win32_caret_usable(ScreenRect { left: 5, top: 5, right: 6, bottom: 5 }));
    assert!(!win32_caret_usable(ScreenRect { left: 0, top: 0, right: 0, bottom: 0 }));
}

#[test]
fn probe_retry_and_attempts() {
    assert!(uia_should_retry(CaretKind::Field, 0));
    assert!(uia_should_retry(CaretKind::Area, 1));
    assert!(!uia_should_retry(CaretKind::Area, 2));
    assert!(!uia_should_retry(CaretKind::Caret, 0));
    assert_eq!(caret_attempts(true), 1);
    assert_eq!(caret_attempts(false), 3);
}

#[test]
fn caret_selection_prefers_real_carets() {
    let uia_caret = caret(10, 10, 12, 30);
    let uia_field = caret(10, 10, 300, 40);
    let w32_caret = caret(20, 20, 22, 40);
    assert!(!needs_win32_probe(Some(uia_caret)));
    assert!(needs_win32_probe(Some(uia_field)));
    assert!(needs_win32_probe(None));
    assert_eq!(select_caret(Some(uia_caret), Some(w32_caret)), (Some(uia_caret), CaretMethod::Uia));
    assert_eq!(select_caret(Some(uia_field), Some(w32_caret)), (Some(w32_caret), CaretMethod::Win32));
    assert_eq!(select_caret(Some(uia_field), None), (Some(uia_field), CaretMethod::Uia));
    assert_eq!(select_caret(None, Some(uia_field)), (None, CaretMethod::Fallback));
    assert_eq!(select_caret(None, None), (None, CaretMethod::Fallback));
}

#[test]
fn windows_are_seen_once() {
    let mut seen = SeenWindows::new();
    assert!(!seen.is_hwnd_seen(42));
    assert!(seen.is_hwnd_seen(42));
    assert!(!seen.is_hwnd_seen(-7));
    assert!(seen.is_hwnd_seen(42));
}

#[test]
fn process_names_from_paths() {
    assert_eq!(process_file_name("\\Device\\HarddiskVolume3\\Windows\\notepad.exe"), "notepad.exe");
    assert_eq!(process_file_name("notepad.exe"), "notepad.exe");
    assert_eq!(process_file_name("C:\\dir\\"), "");
}

#[test]
fn only_validated_rectangles_are_chosen() {
    // At the screen origin: a placeholder, never chosen.
    let origin = CaretRect::new(0, 0, 2, 20);
    assert_eq!(choose_validated_caret(Some((origin, None, true)), None), (None, CaretMethod::Fallback));
    // A valid UI Automation caret is chosen.
    let caret = CaretRect::new(500, 300, 502, 320);
    let window = ScreenRect { left: 400, top: 200, right: 1200, bottom: 900 };
    assert_eq!(
        choose_validated_caret(Some((caret, Some(window), true)), None),
        (Some(caret), CaretMethod::Uia)
    );
    // Off every monitor: rejected, so a valid Win32 caret wins.
    let other = CaretRect::new(600, 300, 602, 320);
    assert_eq!(
        choose_validated_caret(Some((caret, Some(window), false)), Some((other, Some(window), true))),
        (Some(other), CaretMethod::Win32)
    );
    // A valid field from UI Automation stays when the Win32 caret fails validation.
    let field = CaretRect::new(500, 300, 900, 330);
    assert_eq!(field.kind, CaretKind::Field);
    assert_eq!(
        choose_validated_caret(Some((field, Some(window), true)), Some((CaretRect::new(5000, 300, 5002, 320), Some(window), true))),
        (Some(field), CaretMethod::Uia)
    );
    assert_eq!(validated_caret(Some((origin, None, true))), None);
    assert_eq!(validated_caret(Some((caret, Some(window), true))), Some(caret));
}
