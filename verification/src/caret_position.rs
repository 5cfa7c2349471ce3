use vstd::prelude::*;

verus! {

/// Widest on-screen box still treated as a small input field.
pub const FIELD_MAX_WIDTH: i32 = 4000;

/// Tallest on-screen box still treated as a small (single-line) input
/// field; a 200 x 100 box is already a text area.
pub const FIELD_MAX_HEIGHT: i32 = 80;

/// What a located text rectangle stands for.
#[derive(Debug, Clone, Copy, PartialEq, Eq, Structural)]
pub enum CaretKind {
    Caret,
    Field,
    Area,
}

/// The part of an executable's path after its last backslash (the whole
/// path when there is none).
pub open spec fn after_last_backslash(path: Seq<char>) -> Seq<char>
    decreases path.len(),
{
    if path.len() == 0 {
        path
    } else if path.last() == '\\' {
        Seq::<char>::empty()
    } else {
        after_last_backslash(path.drop_last()).push(path.last())
    }
}

/// The file name of a process image path as the window diagnostics show it.
pub fn process_file_name(path: &str) -> (name: String)
    ensures
        name@ == after_last_backslash(path@),
{
    let cs = crate::text::chars_of(path);
    let mut start: usize = cs.len();
    proof {
        assert(cs@.take(cs@.len() as int) =~= cs@);
        assert(cs@.skip(cs@.len() as int) =~= Seq::<char>::empty());
        assert(after_last_backslash(cs@) + Seq::<char>::empty() =~= after_last_backslash(cs@));
    }
    while start > 0 && cs[start - 1] != '\\'
        invariant
            start <= cs@.len(),
            after_last_backslash(cs@) == after_last_backslash(cs@.take(start as int)) + cs@.skip(start as int),
        decreases start,
    {
        proof {
            let t = cs@.take(start as int);
            assert(t.drop_last() =~= cs@.take(start - 1));
            assert(cs@.skip(start - 1) =~= seq![t.last()] + cs@.skip(start as int));
            assert(after_last_backslash(t) == after_last_backslash(t.drop_last()).push(t.last()));
            assert(after_last_backslash(t.drop_last()).push(t.last()) + cs@.skip(start as int)
                =~= after_last_backslash(t.drop_last()) + cs@.skip(start - 1));
        }
        start = start - 1;
    }
    let mut out: Vec<char> = Vec::new();
    let mut i: usize = start;
    while i < cs.len()
        invariant
            start <= i <= cs@.len(),
            out@ == cs@.subrange(start as int, i as int),
        decreases cs@.len() - i,
    {
        out.push(cs[i]);
        proof {
            assert(cs@.subrange(start as int, i as int).push(cs@[i as int]) =~= cs@.subrange(start as int, i + 1));
        }
        i = i + 1;
    }
    proof {
        assert(cs@.subrange(start as int, cs@.len() as int) =~= cs@.skip(start as int));
        if start > 0 {
            let t = cs@.take(start as int);
            assert(t.last() == '\\');
            assert(after_last_backslash(t) =~= Seq::<char>::empty());
        } else {
            assert(cs@.take(0) =~= Seq::<char>::empty());
        }
        assert(after_last_backslash(cs@) =~= out@);
    }
    crate::text::string_from_chars(out.as_slice())
}

/// Which source located the caret.
#[derive(Debug, Clone, Copy, PartialEq, Eq, Structural)]
pub enum CaretMethod {
    Uia,
    Win32,
    Fallback,
}

/// A rectangle in screen coordinates together with its classification.
#[derive(Debug, Clone, Copy, PartialEq, Eq, Structural)]
pub struct CaretRect {
    pub left: i32,
    pub top: i32,
    pub right: i32,
    pub bottom: i32,
    pub kind: CaretKind,
}

/// Classification of a box of width `w` and height `h`: a thin or
/// small squarish box is a caret, a moderate box a field, anything
/// larger an area.
pub open spec fn classify(w: int, h: int) -> CaretKind {
    if w <= 4 || (h <= 40 && w <= h * 2) {
        CaretKind::Caret
    } else if w <= FIELD_MAX_WIDTH && h <= FIELD_MAX_HEIGHT {
        CaretKind::Field
    } else {
        CaretKind::Area
    }
}

/// The width and height of a box fit in `i32`, as do the doubled heights
/// that classification compares against.
pub open spec fn classifiable(left: i32, top: i32, right: i32, bottom: i32) -> bool {
    &&& i32::MIN <= right - left <= i32::MAX
    &&& i32::MIN <= bottom - top <= i32::MAX
    &&& (right - left > 4 && bottom - top <= 40) ==> i32::MIN <= (bottom - top) * 2
}

impl CaretRect {
    /// Builds a rectangle and classifies it by its size.
    pub fn new(left: i32, top: i32, right: i32, bottom: i32) -> (r: Self)
        requires
            classifiable(left, top, right, bottom),
        ensures
            r.left == left,
            r.top == top,
            r.right == right,
            r.bottom == bottom,
            r.kind == classify(right - left, bottom - top),
    {
        let w = right - left;
        let h = bottom - top;
        let kind = if w <= 4 || (h <= 40 && w <= h * 2) {
            CaretKind::Caret
        } else if w <= FIELD_MAX_WIDTH && h <= FIELD_MAX_HEIGHT {
            CaretKind::Field
        } else {
            CaretKind::Area
        };
        CaretRect { left, top, right, bottom, kind }
    }
}


/// A rectangle in screen coordinates without classification (a window's
/// bounds, or the raw caret box of the Win32 caret API).
#[derive(Debug, Clone, Copy, PartialEq, Eq, Structural)]
pub struct ScreenRect {
    pub left: i32,
    pub top: i32,
    pub right: i32,
    pub bottom: i32,
}

/// Why a located caret rectangle is not trusted.
#[derive(Debug, Clone, Copy, PartialEq, Eq, Structural)]
pub enum CaretRejection {
    /// Negative or wider than 5000 pixels.
    InvalidWidth(i64),
    /// Not positive or taller than 3000 pixels.
    InvalidHeight(i64),
    /// Reaches more than 64 pixels beyond the target window.
    OutsideWindow,
    /// Sits at the screen origin or at the window's top-left corner, where
    /// applications report a caret they do not really have.
    Suspect,
    /// On no monitor.
    OutsideMonitors,
}

impl CaretRejection {
    /// Whether the rectangle looked like a placeholder rather than invalid.
    pub fn is_suspect(&self) -> (r: bool)
        ensures
            r == (*self == CaretRejection::Suspect),
    {
        match self {
            CaretRejection::Suspect => true,
            _ => false,
        }
    }
}

/// How far (in pixels) a caret may reach beyond its window.
pub const WINDOW_TOLERANCE: i64 = 64;

/// The verdict on a caret rectangle, given the target window's bounds
/// (when known) and whether the rectangle or its centre lies on some
/// monitor.
pub open spec fn caret_check(rect: CaretRect, window: Option<ScreenRect>, on_monitor: bool) -> Result<(), CaretRejection> {
    let width = rect.right - rect.left;
    let height = rect.bottom - rect.top;
    if width < 0 || width > 5000 {
        Err(CaretRejection::InvalidWidth(width as i64))
    } else if height <= 0 || height > 3000 {
        Err(CaretRejection::InvalidHeight(height as i64))
    } else {
        match window {
            Some(w) => if rect.left < w.left - 64 || rect.right > w.right + 64 || rect.top < w.top - 64
                || rect.bottom > w.bottom + 64 {
                Err(CaretRejection::OutsideWindow)
            } else if (rect.left == 0 && rect.top == 0) || (rect.left == w.left && rect.top == w.top) {
                Err(CaretRejection::Suspect)
            } else if !on_monitor {
                Err(CaretRejection::OutsideMonitors)
            } else {
                Ok(())
            },
            None => if rect.left == 0 && rect.top == 0 {
                Err(CaretRejection::Suspect)
            } else if !on_monitor {
                Err(CaretRejection::OutsideMonitors)
            } else {
                Ok(())
            },
        }
    }
}

/// Checks a located caret rectangle against plausibility rules.
pub fn validate_caret_rect(rect: &CaretRect, window: Option<ScreenRect>, on_monitor: bool) -> (r: Result<(), CaretRejection>)
    ensures
        r == caret_check(*rect, window, on_monitor),
        rect.left == 0 && rect.top == 0 ==> r is Err,
{
    let width = rect.right as i64 - rect.left as i64;
    let height = rect.bottom as i64 - rect.top as i64;
    if width < 0 || width > 5000 {
        return Err(CaretRejection::InvalidWidth(width));
    }
    if height <= 0 || height > 3000 {
        return Err(CaretRejection::InvalidHeight(height));
    }
    match window {
        Some(w) => {
            if (rect.left as i64) < w.left as i64 - WINDOW_TOLERANCE || rect.right as i64 > w.right as i64
                + WINDOW_TOLERANCE || (rect.top as i64) < w.top as i64 - WINDOW_TOLERANCE || rect.bottom as i64
                > w.bottom as i64 + WINDOW_TOLERANCE {
                return Err(CaretRejection::OutsideWindow);
            }
            if (rect.left == 0 && rect.top == 0) || (rect.left == w.left && rect.top == w.top) {
                return Err(CaretRejection::Suspect);
            }
        },
        None => {
            if rect.left == 0 && rect.top == 0 {
                return Err(CaretRejection::Suspect);
            }
        },
    }
    if !on_monitor {
        return Err(CaretRejection::OutsideMonitors);
    }
    Ok(())
}

/// Whether the caret box reported by the Win32 caret API is usable: not
/// of negative width, of positive height, and not all zero.
pub fn win32_caret_usable(rc: ScreenRect) -> (r: bool)
    ensures
        r == (rc.right - rc.left >= 0 && rc.bottom - rc.top > 0 && !(rc.left == 0 && rc.top == 0
            && rc.right == 0 && rc.bottom == 0)),
{
    (rc.right as i64 - rc.left as i64) >= 0 && (rc.bottom as i64 - rc.top as i64) > 0 && !(rc.left == 0
        && rc.top == 0 && rc.right == 0 && rc.bottom == 0)
}

/// The UI Automation probe is repeated (at most twice more) while it finds
/// only a field or area rather than a caret.
pub fn uia_should_retry(kind: CaretKind, attempt: u32) -> (r: bool)
    ensures
        r == (kind != CaretKind::Caret && attempt < 2),
{
    kind != CaretKind::Caret && attempt < 2
}

/// A window seen before is probed once; a new one up to three times,
/// since freshly focused windows often report their caret late.
pub fn caret_attempts(seen_before: bool) -> (n: u32)
    ensures
        n == (if seen_before { 1u32 } else { 3u32 }),
{
    if seen_before {
        1
    } else {
        3
    }
}

/// Whether the Win32 caret must be consulted: when UI Automation found
/// nothing or only a field or area.
pub fn needs_win32_probe(uia: Option<CaretRect>) -> (r: bool)
    ensures
        r == !(uia matches Some(u) && u.kind == CaretKind::Caret),
{
    match uia {
        Some(u) => u.kind != CaretKind::Caret,
        None => true,
    }
}

/// The choice between the two probes: a real caret from UI Automation is
/// kept; otherwise a caret from the Win32 API is preferred; otherwise
/// whatever UI Automation found (a field or area), else nothing.
pub open spec fn caret_choice(uia: Option<CaretRect>, win32: Option<CaretRect>) -> (Option<CaretRect>, CaretMethod) {
    if uia matches Some(u) && u.kind == CaretKind::Caret {
        (uia, CaretMethod::Uia)
    } else if win32 matches Some(w) && w.kind == CaretKind::Caret {
        (win32, CaretMethod::Win32)
    } else if uia is Some {
        (uia, CaretMethod::Uia)
    } else {
        (None, CaretMethod::Fallback)
    }
}

/// Chooses the caret rectangle from the two probes' results.
pub fn select_caret(uia: Option<CaretRect>, win32: Option<CaretRect>) -> (r: (Option<CaretRect>, CaretMethod))
    ensures
        r == caret_choice(uia, win32),
{
    if let Some(u) = uia {
        if u.kind == CaretKind::Caret {
            return (uia, CaretMethod::Uia);
        }
    }
    if let Some(w) = win32 {
        if w.kind == CaretKind::Caret {
            return (win32, CaretMethod::Win32);
        }
    }
    if uia.is_some() {
        (uia, CaretMethod::Uia)
    } else {
        (None, CaretMethod::Fallback)
    }
}

/// A probe's rectangle if it passes validation against the window bounds
/// and monitor flag found with it; otherwise nothing.
pub open spec fn keep_valid(probe: Option<(CaretRect, Option<ScreenRect>, bool)>) -> Option<CaretRect> {
    match probe {
        Some((rect, window, on_monitor)) => if caret_check(rect, window, on_monitor) is Ok {
            Some(rect)
        } else {
            None
        },
        None => None,
    }
}

/// Validates what a probe found: its rectangle, kept only when it passes.
pub fn validated_caret(probe: Option<(CaretRect, Option<ScreenRect>, bool)>) -> (r: Option<CaretRect>)
    ensures
        r == keep_valid(probe),
{
    match probe {
        Some((rect, window, on_monitor)) => match validate_caret_rect(&rect, window, on_monitor) {
            Ok(()) => Some(rect),
            Err(_) => None,
        },
        None => None,
    }
}

/// Validates what each probe found (its rectangle, the target window's
/// bounds when known, and whether the rectangle lies on a monitor) and
/// chooses between the rectangles that pass: a chosen rectangle always
/// passed validation with the facts that came with it.
pub fn choose_validated_caret(
    uia: Option<(CaretRect, Option<ScreenRect>, bool)>,
    win32: Option<(CaretRect, Option<ScreenRect>, bool)>,
) -> (r: (Option<CaretRect>, CaretMethod))
    ensures
        r == caret_choice(keep_valid(uia), keep_valid(win32)),
        r.1 == CaretMethod::Uia ==> (uia matches Some((c, w, on)) && r.0 == Some(c) && caret_check(c, w, on) is Ok),
        r.1 == CaretMethod::Win32 ==> (win32 matches Some((c, w, on)) && r.0 == Some(c) && caret_check(c, w, on) is Ok
            && c.kind == CaretKind::Caret),
        r.0 is None <==> r.1 == CaretMethod::Fallback,
        r.0 matches Some(c) ==> !(c.left == 0 && c.top == 0),
{
    let u = validated_caret(uia);
    let w = validated_caret(win32);
    select_caret(u, w)
}

/// What an accepted caret rectangle satisfies, whatever the window bounds
/// that come with it: a width of 0 to 5000 pixels and a height of 1 to
/// 3000; not at the screen origin (where applications report a caret they
/// do not have) nor at the window's top-left corner; within 64 pixels of
/// the window; on some monitor. Conversely, a rectangle at the origin of a
/// valid size within the window's reach is rejected as a placeholder.
pub proof fn lemma_accepted_caret(rect: CaretRect, window: Option<ScreenRect>, on_monitor: bool)
    ensures
        caret_check(rect, window, on_monitor) is Ok ==> {
            &&& 0 <= rect.right - rect.left <= 5000
            &&& 0 < rect.bottom - rect.top <= 3000
            &&& !(rect.left == 0 && rect.top == 0)
            &&& on_monitor
            &&& (window matches Some(w) ==> {
                &&& !(rect.left == w.left && rect.top == w.top)
                &&& w.left - 64 <= rect.left
                &&& rect.right <= w.right + 64
                &&& w.top - 64 <= rect.top
                &&& rect.bottom <= w.bottom + 64
            })
        },
        rect.left == 0 && rect.top == 0 ==> caret_check(rect, window, on_monitor) is Err,
        (rect.left == 0 && rect.top == 0 && 0 <= rect.right - rect.left <= 5000 && 0 < rect.bottom - rect.top <= 3000
            && (window matches Some(w) ==> (w.left - 64 <= rect.left && rect.right <= w.right + 64 && w.top - 64
            <= rect.top && rect.bottom <= w.bottom + 64))) ==> caret_check(rect, window, on_monitor) == Err::<(), CaretRejection>(
            CaretRejection::Suspect),
        keep_valid(Some((rect, window, on_monitor))) is Some ==> !(rect.left == 0 && rect.top == 0),
{
}

/// A caret that UI Automation reports is never overridden, and the
/// method names the probe whose rectangle was chosen.
pub proof fn lemma_caret_choice_sound(uia: Option<CaretRect>, win32: Option<CaretRect>)
    ensures
        caret_choice(uia, win32).1 == CaretMethod::Uia ==> caret_choice(uia, win32).0 == uia,
        caret_choice(uia, win32).1 == CaretMethod::Win32 ==> caret_choice(uia, win32).0 == win32,
        caret_choice(uia, win32).1 == CaretMethod::Fallback <==> caret_choice(uia, win32).0 is None,
        (uia matches Some(u) && u.kind == CaretKind::Caret) ==> caret_choice(uia, win32) == (uia, CaretMethod::Uia),
{
}

/// The windows whose caret has been probed before.
pub struct SeenWindows {
    handles: std::collections::HashSet<isize>,
}

impl SeenWindows {
    /// The handles recorded so far.
    pub closed spec fn view(&self) -> Set<isize> {
        self.handles@
    }

    /// Nothing seen yet.
    pub fn new() -> (s: Self)
        ensures
            s.view() == Set::<isize>::empty(),
    {
        SeenWindows { handles: std::collections::HashSet::new() }
    }

    /// Records `hwnd`; returns whether it had been seen before.
    pub fn is_hwnd_seen(&mut self, hwnd: isize) -> (seen: bool)
        ensures
            seen == old(self).view().contains(hwnd),
            final(self).view() == old(self).view().insert(hwnd),
    {
        broadcast use vstd::std_specs::hash::group_hash_axioms;
        if self.handles.contains(&hwnd) {
            assert(self.handles@.insert(hwnd) =~= self.handles@);
            true
        } else {
            self.handles.insert(hwnd);
            false
        }
    }
}

} // verus!
