use vstd::prelude::*;

use crate::caret_position::{CaretKind, CaretRect};
use crate::text::str_eq;

verus! {

/// The overlay's size in logical pixels for a skin: small for "mini",
/// medium for "compact", large otherwise.
pub fn overlay_logical_size(skin: &str) -> (wh: (u32, u32))
    ensures
        wh == (if skin@ == "mini"@ {
            (144u32, 82u32)
        } else if skin@ == "compact"@ {
            (268u32, 96u32)
        } else {
            (392u32, 162u32)
        }),
{
    if str_eq(skin, "mini") {
        (144, 82)
    } else if str_eq(skin, "compact") {
        (268, 96)
    } else {
        (392, 162)
    }
}

/// What the mini overlay is placed next to.
#[derive(Debug, Clone, Copy, PartialEq, Eq, Structural)]
pub enum AnchorKind {
    Caret,
    Field,
    /// A large text area, at the height of the mouse pointer inside it.
    AreaAtMouse,
}

/// The anchor of the mini overlay: a caret or field as located; for a
/// large area, a line across it at the mouse pointer's height when the
/// pointer lies inside it (edges included); otherwise none, and the
/// overlay takes its configured fixed position.
pub open spec fn anchor_for(is_mini: bool, caret: Option<CaretRect>, cursor: Option<(i32, i32)>) -> Option<(CaretRect, AnchorKind)> {
    if !is_mini {
        None
    } else {
        match caret {
            None => None,
            Some(rect) => match rect.kind {
                CaretKind::Caret => Some((rect, AnchorKind::Caret)),
                CaretKind::Field => Some((rect, AnchorKind::Field)),
                CaretKind::Area => match cursor {
                    Some((x, y)) => if rect.left <= x <= rect.right && rect.top <= y <= rect.bottom {
                        Some((CaretRect { left: rect.left, top: y, right: rect.right, bottom: y, kind: CaretKind::Area }, AnchorKind::AreaAtMouse))
                    } else {
                        None
                    },
                    None => None,
                },
            },
        }
    }
}

/// Chooses what the overlay is anchored to; `cursor` is the mouse
/// position, when it could be read.
pub fn overlay_anchor(is_mini: bool, caret: Option<CaretRect>, cursor: Option<(i32, i32)>) -> (r: Option<(CaretRect, AnchorKind)>)
    ensures
        r == anchor_for(is_mini, caret, cursor),
        !is_mini ==> r is None,
        caret is None ==> r is None,
        is_mini && (caret matches Some(c) && c.kind == CaretKind::Caret) ==> r == Some((caret->0, AnchorKind::Caret)),
        is_mini && (caret matches Some(c) && c.kind == CaretKind::Field) ==> r == Some((caret->0, AnchorKind::Field)),
        (is_mini && (caret matches Some(c) && c.kind == CaretKind::Area)) ==> (r is Some <==> mouse_inside(
            caret->0,
            cursor,
        )),
        r matches Some((a, k)) ==> (k == AnchorKind::AreaAtMouse ==> (mouse_inside(caret->0, cursor) && a.left
            == caret->0.left && a.right == caret->0.right && a.top == (cursor->0).1 && a.bottom == (cursor->0).1)),
{
    if !is_mini {
        return None;
    }
    match caret {
        None => None,
        Some(rect) => match rect.kind {
            CaretKind::Caret => Some((rect, AnchorKind::Caret)),
            CaretKind::Field => Some((rect, AnchorKind::Field)),
            CaretKind::Area => match cursor {
                Some((x, y)) => {
                    if rect.left <= x && x <= rect.right && rect.top <= y && y <= rect.bottom {
                        Some((CaretRect { left: rect.left, top: y, right: rect.right, bottom: y, kind: CaretKind::Area }, AnchorKind::AreaAtMouse))
                    } else {
                        None
                    }
                },
                None => None,
            },
        },
    }
}

/// The mouse pointer, when known, lies inside `c` (edges included).
pub open spec fn mouse_inside(c: CaretRect, cursor: Option<(i32, i32)>) -> bool {
    match cursor {
        Some((x, y)) => c.left <= x <= c.right && c.top <= y <= c.bottom,
        None => false,
    }
}

/// With the mini skin, a located caret or field is always the anchor,
/// wherever the mouse is; a large area is the anchor only at the mouse's
/// height and only while the mouse is inside it; other skins are never
/// anchored.
pub proof fn lemma_mini_anchor(rect: CaretRect, cursor: Option<(i32, i32)>)
    ensures
        rect.kind == CaretKind::Caret ==> anchor_for(true, Some(rect), cursor) == Some((rect, AnchorKind::Caret)),
        rect.kind == CaretKind::Field ==> anchor_for(true, Some(rect), cursor) == Some((rect, AnchorKind::Field)),
        rect.kind == CaretKind::Area ==> match anchor_for(true, Some(rect), cursor) {
            Some((a, kind)) => kind == AnchorKind::AreaAtMouse && mouse_inside(rect, cursor) && a.left == rect.left
                && a.right == rect.right && a.top == (cursor->0).1 && a.bottom == (cursor->0).1,
            None => !mouse_inside(rect, cursor),
        },
        anchor_for(false, Some(rect), cursor) is None,
{
}

/// The language of the tray menu: English when the interface follows the
/// system language, else the chosen one.
pub fn tray_language(app_language: &str) -> (lang: &str)
    ensures
        lang@ == (if app_language@ == "system"@ { "en"@ } else { app_language@ }),
{
    if str_eq(app_language, "system") {
        "en"
    } else {
        app_language
    }
}

/// The tray menu's "settings" and "quit" labels: Russian for "ru",
/// English otherwise.
pub fn tray_labels(lang: &str) -> (labels: (&'static str, &'static str))
    ensures
        lang@ == "ru"@ ==> labels.0@ == "Настройки"@ && labels.1@ == "Выход"@,
        lang@ != "ru"@ ==> labels.0@ == "Settings"@ && labels.1@ == "Quit"@,
{
    if str_eq(lang, "ru") {
        ("Настройки", "Выход")
    } else {
        ("Settings", "Quit")
    }
}

/// The settings window is shown at launch unless the application was
/// started by the system at log-in or is set to start silently.
pub fn show_main_window_at_launch(launched_at_login: bool, silent_start: bool) -> (r: bool)
    ensures
        r == (!launched_at_login && !silent_start),
{
    !launched_at_login && !silent_start
}

/// Whether the launch arguments mark a start at log-in.
pub fn launched_at_login(args: &Vec<String>) -> (r: bool)
    ensures
        r == exists|i: int| 0 <= i < args@.len() && #[trigger] args@[i]@ == "--autostart"@,
{
    let mut i: usize = 0;
    while i < args.len()
        invariant
            i <= args@.len(),
            forall|k: int| 0 <= k < i ==> #[trigger] args@[k]@ != "--autostart"@,
        decreases args@.len() - i,
    {
        if str_eq(args[i].as_str(), "--autostart") {
            return true;
        }
        i = i + 1;
    }
    false
}

} // verus!
