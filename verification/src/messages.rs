//! The messages of the overlay window: what each one asks for, and the numbers packed into
//! it.

use vstd::prelude::*;

use crate::overlay::{HitModel, RectF};
use crate::scalar::Scalar;

verus! {

pub const WM_ERASEBKGND: u32 = 0x0014;

pub const WM_SETCURSOR: u32 = 0x0020;

pub const WM_NCHITTEST: u32 = 0x0084;

pub const WM_TIMER: u32 = 0x0113;

pub const WM_CTLCOLOREDIT: u32 = 0x0133;

pub const WM_MOUSEMOVE: u32 = 0x0200;

pub const WM_LBUTTONDOWN: u32 = 0x0201;

pub const WM_LBUTTONUP: u32 = 0x0202;

pub const WM_LBUTTONDBLCLK: u32 = 0x0203;

pub const WM_RBUTTONDOWN: u32 = 0x0204;

pub const WM_MOUSEWHEEL: u32 = 0x020A;

pub const WM_DROPFILES: u32 = 0x0233;

pub const WM_HOTKEY: u32 = 0x0312;

/// Asks the message loop to end.
pub const WM_APP_QUIT: u32 = 0x8001;

/// Carries an event into the overlay.
pub const WM_SYLVA_INJECT: u32 = 0x8002;

/// The hotkey that ends the program.
pub const QUIT_HOTKEY_ID: i32 = 1;

/// The hotkey that opens and folds the console.
pub const CONSOLE_HOTKEY_ID: i32 = 2;

/// The timer that compares fences with their folders.
pub const SYNC_LIBRARY_TIMER: usize = 0x5311;

/// The timer of animations.
pub const ANIM_TIMER: usize = 0x5312;

/// What a window message asks for.
#[derive(Debug, Clone, Copy, PartialEq, Eq, Structural)]
pub enum WindowMessage {
    /// Which part of the window a point belongs to.
    HitTest,
    /// To paint the background.
    Erase,
    SetCursor,
    DropFiles,
    /// The wheel was turned, by 120 to the notch.
    Wheel { delta: i32 },
    ButtonDown { x: i32, y: i32 },
    ButtonUp { x: i32, y: i32 },
    DoubleClick { x: i32, y: i32 },
    MouseMove { x: i32, y: i32 },
    RightButton { x: i32, y: i32 },
    /// To end the program.
    Quit,
    ConsoleToggle,
    SyncLibrary,
    AnimTick,
    /// The colours of an edit field.
    EditColors,
    /// To handle an event that was sent along.
    Inject,
    /// Nothing of the overlay's own.
    Other,
}

/// The lowest 16 bits of `n`, taken as a signed number.
pub open spec fn low_signed(n: int) -> int {
    let low = n % 0x1_0000;
    if low >= 0x8000 {
        low - 0x1_0000
    } else {
        low
    }
}

/// The next 16 bits of `n`, taken as a signed number.
pub open spec fn high_signed(n: int) -> int {
    low_signed(n / 0x1_0000)
}

/// The lowest 32 bits of `n`, taken as a signed number.
pub open spec fn low_word(n: int) -> int {
    let low = n % 0x1_0000_0000;
    if low >= 0x8000_0000 {
        low - 0x1_0000_0000
    } else {
        low
    }
}

fn signed_low(n: i128) -> (r: i32)
    ensures
        r == low_signed(n as int),
{
    let low: i128 = n.checked_rem_euclid(0x1_0000).unwrap();
    if low >= 0x8000 {
        (low - 0x1_0000) as i32
    } else {
        low as i32
    }
}

fn signed_high(n: i128) -> (r: i32)
    ensures
        r == high_signed(n as int),
{
    signed_low(n.checked_div_euclid(0x1_0000).unwrap())
}

fn signed_word(n: i128) -> (r: i32)
    ensures
        r == low_word(n as int),
{
    let low: i128 = n.checked_rem_euclid(0x1_0000_0000).unwrap();
    if low >= 0x8000_0000 {
        (low - 0x1_0000_0000) as i32
    } else {
        low as i32
    }
}

/// The point packed into a mouse message: the lower half is the horizontal place, the upper
/// half the vertical one, both signed.
pub fn client_point(lparam: isize) -> (r: (i32, i32))
    ensures
        r.0 == low_signed(lparam as int),
        r.1 == high_signed(lparam as int),
{
    (signed_low(lparam as i128), signed_high(lparam as i128))
}

/// The turn packed into a wheel message.
pub fn wheel_delta(wparam: usize) -> (r: i32)
    ensures
        r == high_signed(wparam as int),
{
    signed_high(wparam as i128)
}

/// What a message asks for.
pub open spec fn meaning(msg: u32, wparam: usize, lparam: isize) -> WindowMessage {
    let x = low_signed(lparam as int) as i32;
    let y = high_signed(lparam as int) as i32;
    if msg == WM_NCHITTEST {
        WindowMessage::HitTest
    } else if msg == WM_ERASEBKGND {
        WindowMessage::Erase
    } else if msg == WM_SETCURSOR {
        WindowMessage::SetCursor
    } else if msg == WM_DROPFILES {
        WindowMessage::DropFiles
    } else if msg == WM_MOUSEWHEEL {
        WindowMessage::Wheel { delta: high_signed(wparam as int) as i32 }
    } else if msg == WM_LBUTTONDOWN {
        WindowMessage::ButtonDown { x, y }
    } else if msg == WM_LBUTTONUP {
        WindowMessage::ButtonUp { x, y }
    } else if msg == WM_LBUTTONDBLCLK {
        WindowMessage::DoubleClick { x, y }
    } else if msg == WM_MOUSEMOVE {
        WindowMessage::MouseMove { x, y }
    } else if msg == WM_RBUTTONDOWN {
        WindowMessage::RightButton { x, y }
    } else if msg == WM_HOTKEY && low_word(wparam as int) == QUIT_HOTKEY_ID {
        WindowMessage::Quit
    } else if msg == WM_HOTKEY && low_word(wparam as int) == CONSOLE_HOTKEY_ID {
        WindowMessage::ConsoleToggle
    } else if msg == WM_TIMER && wparam == SYNC_LIBRARY_TIMER {
        WindowMessage::SyncLibrary
    } else if msg == WM_TIMER && wparam == ANIM_TIMER {
        WindowMessage::AnimTick
    } else if msg == WM_CTLCOLOREDIT {
        WindowMessage::EditColors
    } else if msg == WM_APP_QUIT {
        WindowMessage::Quit
    } else if msg == WM_SYLVA_INJECT && lparam != 0 {
        WindowMessage::Inject
    } else {
        WindowMessage::Other
    }
}

/// What a message asks for.
pub fn classify(msg: u32, wparam: usize, lparam: isize) -> (r: WindowMessage)
    ensures
        r == meaning(msg, wparam, lparam),
{
    let (x, y) = client_point(lparam);
    if msg == WM_NCHITTEST {
        WindowMessage::HitTest
    } else if msg == WM_ERASEBKGND {
        WindowMessage::Erase
    } else if msg == WM_SETCURSOR {
        WindowMessage::SetCursor
    } else if msg == WM_DROPFILES {
        WindowMessage::DropFiles
    } else if msg == WM_MOUSEWHEEL {
        WindowMessage::Wheel { delta: wheel_delta(wparam) }
    } else if msg == WM_LBUTTONDOWN {
        WindowMessage::ButtonDown { x, y }
    } else if msg == WM_LBUTTONUP {
        WindowMessage::ButtonUp { x, y }
    } else if msg == WM_LBUTTONDBLCLK {
        WindowMessage::DoubleClick { x, y }
    } else if msg == WM_MOUSEMOVE {
        WindowMessage::MouseMove { x, y }
    } else if msg == WM_RBUTTONDOWN {
        WindowMessage::RightButton { x, y }
    } else if msg == WM_HOTKEY && signed_word(wparam as i128) == QUIT_HOTKEY_ID {
        WindowMessage::Quit
    } else if msg == WM_HOTKEY && signed_word(wparam as i128) == CONSOLE_HOTKEY_ID {
        WindowMessage::ConsoleToggle
    } else if msg == WM_TIMER && wparam == SYNC_LIBRARY_TIMER {
        WindowMessage::SyncLibrary
    } else if msg == WM_TIMER && wparam == ANIM_TIMER {
        WindowMessage::AnimTick
    } else if msg == WM_CTLCOLOREDIT {
        WindowMessage::EditColors
    } else if msg == WM_APP_QUIT {
        WindowMessage::Quit
    } else if msg == WM_SYLVA_INJECT && lparam != 0 {
        WindowMessage::Inject
    } else {
        WindowMessage::Other
    }
}

/// A rectangle of whole pixels by its edges, the right and lower ones not included.
#[derive(Debug, Clone, Copy, PartialEq, Eq, Structural)]
pub struct PixelRect {
    pub left: i32,
    pub top: i32,
    pub right: i32,
    pub bottom: i32,
}

/// `n` stopped at the bounds of `i32`.
pub open spec fn word(n: i64) -> i32 {
    if n < i32::MIN {
        i32::MIN
    } else if n > i32::MAX {
        i32::MAX
    } else {
        n as i32
    }
}

/// `r` cut to whole pixels.
pub open spec fn pixels<S: Scalar>(r: RectF<S>) -> PixelRect {
    PixelRect {
        left: word(r.x.whole()),
        top: word(r.y.whole()),
        right: word(r.right_edge().whole()),
        bottom: word(r.bottom_edge().whole()),
    }
}

pub open spec fn has_area(p: PixelRect) -> bool {
    p.left < p.right && p.top < p.bottom
}

/// `n` stopped at the bounds of `i32`.
pub fn to_word(n: i64) -> (r: i32)
    ensures
        r == word(n),
{
    if n < i32::MIN as i64 {
        i32::MIN
    } else if n > i32::MAX as i64 {
        i32::MAX
    } else {
        n as i32
    }
}

/// `r` cut to whole pixels.
pub fn pixel_rect<S: Scalar>(r: RectF<S>) -> (p: PixelRect)
    ensures
        p == pixels(r),
{
    PixelRect {
        left: to_word(r.x.cut()),
        top: to_word(r.y.cut()),
        right: to_word(r.x.plus(r.w).cut()),
        bottom: to_word(r.y.plus(r.h).cut()),
    }
}

/// The pixel rectangles of the first `n` fences that cover any pixel.
pub open spec fn fence_areas<S: Scalar>(m: HitModel<S>, n: int) -> Seq<PixelRect>
    decreases n,
{
    if n <= 0 {
        Seq::empty()
    } else {
        let p = pixels(m.fences[n - 1].body);
        if has_area(p) {
            fence_areas(m, n - 1).push(p)
        } else {
            fence_areas(m, n - 1)
        }
    }
}

/// The areas whose union the window is cut to: those of the fences and of the console.
pub open spec fn region<S: Scalar>(m: HitModel<S>) -> Seq<PixelRect> {
    let fences = fence_areas(m, m.fences.len() as int);
    match m.console {
        Some(c) => if has_area(pixels(c.rect)) {
            fences.push(pixels(c.rect))
        } else {
            fences
        },
        None => fences,
    }
}

/// The areas whose union the window is cut to; a click outside of them goes to what lies
/// behind.
pub fn build_region<S: Scalar>(model: &HitModel<S>) -> (r: Vec<PixelRect>)
    ensures
        r@ == region(*model),
{
    let mut out: Vec<PixelRect> = Vec::new();
    let mut i: usize = 0;
    while i < model.fences.len()
        invariant
            i <= model.fences.len(),
            out@ == fence_areas(*model, i as int),
        decreases model.fences.len() - i,
    {
        let p = pixel_rect(model.fences[i].body);
        if p.left < p.right && p.top < p.bottom {
            out.push(p);
        }
        i += 1;
    }
    match &model.console {
        Some(c) => {
            let p = pixel_rect(c.rect);
            if p.left < p.right && p.top < p.bottom {
                out.push(p);
            }
        },
        None => {},
    }
    out
}

proof fn lemma_fence_areas<S: Scalar>(m: HitModel<S>, n: int)
    requires
        0 <= n <= m.fences.len(),
    ensures
        forall|k: int| 0 <= k < fence_areas(m, n).len() ==> has_area(#[trigger] fence_areas(m, n)[k]),
        forall|i: int|
            0 <= i < n && has_area(pixels(#[trigger] m.fences[i].body)) ==> fence_areas(m, n).contains(
                pixels(m.fences[i].body),
            ),
    decreases n,
{
    if n > 0 {
        lemma_fence_areas(m, n - 1);
        let a = fence_areas(m, n - 1);
        let b = fence_areas(m, n);
        let p = pixels(m.fences[n - 1].body);
        assert forall|i: int| 0 <= i < n && has_area(pixels(#[trigger] m.fences[i].body)) implies b.contains(
            pixels(m.fences[i].body),
        ) by {
            if i < n - 1 {
                let k = choose|k: int| 0 <= k < a.len() && a[k] == pixels(m.fences[i].body);
                assert(b[k] == a[k]);
            } else {
                assert(b[a.len() as int] == p);
            }
        }
    }
}

/// Every fence that covers a pixel is part of the region, and so is the console; nothing
/// without a pixel is.
pub proof fn law_region_covers<S: Scalar>(m: HitModel<S>)
    ensures
        forall|i: int|
            0 <= i < m.fences.len() && has_area(pixels(#[trigger] m.fences[i].body)) ==> region(m).contains(
                pixels(m.fences[i].body),
            ),
        m.console matches Some(c) ==> (has_area(pixels(c.rect)) ==> region(m).contains(pixels(c.rect))),
        forall|k: int| 0 <= k < region(m).len() ==> has_area(#[trigger] region(m)[k]),
{
    let n = m.fences.len() as int;
    lemma_fence_areas(m, n);
    let a = fence_areas(m, n);
    let b = region(m);
    assert forall|i: int| 0 <= i < n && has_area(pixels(#[trigger] m.fences[i].body)) implies b.contains(
        pixels(m.fences[i].body),
    ) by {
        let k = choose|k: int| 0 <= k < a.len() && a[k] == pixels(m.fences[i].body);
        assert(b[k] == a[k]);
    }
    match m.console {
        Some(c) => {
            if has_area(pixels(c.rect)) {
                assert(b[a.len() as int] == pixels(c.rect));
            }
        },
        None => {},
    }
}

/// A point that is packed into a mouse message, the horizontal place in the lower half and the
/// vertical one in the upper half, comes out of it as it was, left of and above the origin too.
pub proof fn law_packed_point_comes_out(x: int, y: int, n: int)
    requires
        -0x8000 <= x < 0x8000,
        -0x8000 <= y < 0x8000,
        n == (y % 0x1_0000) * 0x1_0000 + x % 0x1_0000,
    ensures
        low_signed(n) == x,
        high_signed(n) == y,
{
    let a = x % 0x1_0000;
    let b = y % 0x1_0000;
    assert(0 <= a < 0x1_0000 && 0 <= b < 0x1_0000);
    assert(n % 0x1_0000 == a && n / 0x1_0000 == b) by (nonlinear_arith)
        requires
            n == b * 0x1_0000 + a,
            0 <= a < 0x1_0000,
    ;
    assert(x >= 0 ==> a == x);
    assert(x < 0 ==> a == x + 0x1_0000);
    assert(y >= 0 ==> b == y);
    assert(y < 0 ==> b == y + 0x1_0000);
    assert(b % 0x1_0000 == b);
}

/// The messages of the mouse mean what the system sends them for: a press, a release and a
/// double click of the left button, a press of the right one, a move and a turn of the wheel,
/// each at the point, or by the turn, that is packed into it.
pub proof fn law_mouse_messages(wparam: usize, lparam: isize)
    ensures
        meaning(0x0201, wparam, lparam) matches WindowMessage::ButtonDown { x, y } && x == low_signed(lparam as int) && y
            == high_signed(lparam as int),
        meaning(0x0202, wparam, lparam) matches WindowMessage::ButtonUp { x, y } && x == low_signed(lparam as int) && y
            == high_signed(lparam as int),
        meaning(0x0203, wparam, lparam) matches WindowMessage::DoubleClick { x, y } && x == low_signed(lparam as int) && y
            == high_signed(lparam as int),
        meaning(0x0204, wparam, lparam) matches WindowMessage::RightButton { x, y } && x == low_signed(lparam as int) && y
            == high_signed(lparam as int),
        meaning(0x0200, wparam, lparam) matches WindowMessage::MouseMove { x, y } && x == low_signed(lparam as int) && y
            == high_signed(lparam as int),
        meaning(0x020A, wparam, lparam) matches WindowMessage::Wheel { delta } && delta == high_signed(wparam as int),
{
}

} // verus!
