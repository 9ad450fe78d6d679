//! The inline rename popup of the tab strip: its geometry, its hover and
//! activation state, and what its keys and buttons do.
use vstd::prelude::*;
use crate::inspect::WindowBounds;
use crate::window_rules;

verus! {

/// Longest title that a tab can be given, in UTF-8 bytes.
pub const TAB_TITLE_MAX_BYTES: usize = 128;

/// How much lighter than its surroundings the hovered check button is.
pub const HOVER_LIFT: u32 = 28;

/// How long the popup takes to fade in, in milliseconds.
pub const FADE_DURATION_MS: u64 = 80;

/// Space left and right of the tooltip's text.
pub const TOOLTIP_PAD_X: i32 = 14;

/// Space above and below the tooltip's text.
pub const TOOLTIP_PAD_Y: i32 = 8;

/// Space between the check button and its tooltip.
pub const TOOLTIP_GAP: i32 = 6;

pub const WM_CREATE: u32 = 0x0001;

pub const WM_DESTROY: u32 = 0x0002;

pub const WM_ACTIVATE: u32 = 0x0006;

pub const WM_PAINT: u32 = 0x000F;

pub const WM_CLOSE: u32 = 0x0010;

pub const WM_ERASEBKGND: u32 = 0x0014;

pub const WM_SETCURSOR: u32 = 0x0020;

pub const WM_KEYDOWN: u32 = 0x0100;

pub const WM_CHAR: u32 = 0x0102;

pub const WM_TIMER: u32 = 0x0113;

pub const WM_CTLCOLOREDIT: u32 = 0x0133;

pub const WM_MOUSEMOVE: u32 = 0x0200;

pub const WM_LBUTTONDOWN: u32 = 0x0201;

pub const WM_MOUSELEAVE: u32 = 0x02A3;

/// The edit control asks for the text to be taken.
pub const WM_INLINE_RENAME_COMMIT: u32 = 0x0414;

/// The edit control asks for the text to be dropped.
pub const WM_INLINE_RENAME_CANCEL: u32 = 0x0415;

/// The timer that drives the fade.
pub const FADE_TIMER_ID: usize = 0xB1;

pub const VK_RETURN: u16 = 0x0D;

pub const VK_ESCAPE: u16 = 0x1B;

/// Where the popup is, and where its check button is inside it.
#[derive(Clone, Copy, Debug, PartialEq, Eq, Structural)]
pub struct PopupGeometry {
    pub x: i32,
    pub y: i32,
    pub width: i32,
    pub height: i32,
    pub check: WindowBounds,
}

/// Where the edit control is inside the popup.
#[derive(Clone, Copy, Debug, PartialEq, Eq, Structural)]
pub struct EditGeometry {
    pub left: i32,
    pub top: i32,
    pub width: i32,
    pub height: i32,
}

/// A rectangle on the screen by its corner and size.
#[derive(Clone, Copy, Debug, PartialEq, Eq, Structural)]
pub struct Placement {
    pub x: i32,
    pub y: i32,
    pub width: i32,
    pub height: i32,
}

pub open spec fn at_least(n: int, floor: int) -> int {
    if n >= floor {
        n
    } else {
        floor
    }
}

pub open spec fn at_most(n: int, ceiling: int) -> int {
    if n <= ceiling {
        n
    } else {
        ceiling
    }
}

fn floored(n: i32, floor: i32) -> (r: i32)
    ensures
        r == at_least(n as int, floor as int),
{
    if n >= floor {
        n
    } else {
        floor
    }
}

/// The space between the strip's edge and the tab's, sideways.
pub open spec fn side_inset(height: int) -> int {
    at_least(height / 6, 4)
}

/// The space between the strip's edge and the tab's, above and below.
pub open spec fn vertical_inset(height: int) -> int {
    at_least(height / 8, 3)
}

/// Height of the popup in a strip of the given height.
pub open spec fn popup_height(strip_height: int) -> int {
    at_least(strip_height - 2 * vertical_inset(strip_height), 12)
}

/// Width of the popup for a tab of the given width.
pub open spec fn popup_width(tab_width: int, strip_height: int) -> int {
    at_least(tab_width - 2 * side_inset(strip_height), 20)
}

/// Side of the square check button in a popup of the given height: two thirds of
/// it within limits, made even or odd as the height is, so that it can be centred.
pub open spec fn check_side(height: int) -> int {
    let target = at_most(at_least(height * 2 / 3, 16), height - 4);
    if target % 2 == height % 2 {
        target
    } else {
        target + 1
    }
}

/// Space between the check button and the popup's right edge.
pub open spec fn check_margin(height: int) -> int {
    let side = check_side(height);
    at_least((side - at_least(side * 4 / 9, 8)) / 2, side_inset(height))
}

/// The check button in a popup of the given size.
pub open spec fn check_bounds(width: int, height: int) -> (int, int, int, int) {
    let side = check_side(height);
    let right = width - check_margin(height);
    let top = (height - side) / 2;
    (right - side, top, right, top + side)
}

/// The popup for a tab at `(x, y)` of the given size.
pub open spec fn popup_for(x: int, y: int, width: int, height: int) -> PopupGeometry {
    let w = popup_width(width, height);
    let h = popup_height(height);
    let check = check_bounds(w, h);
    PopupGeometry {
        x: (x + side_inset(height)) as i32,
        y: (y + vertical_inset(height)) as i32,
        width: w as i32,
        height: h as i32,
        check: WindowBounds {
            left: check.0 as i32,
            top: check.1 as i32,
            right: check.2 as i32,
            bottom: check.3 as i32,
        },
    }
}

/// The popup's corner and the products on the way to it are representable.
pub open spec fn popup_fits(x: int, y: int, width: int, height: int) -> bool {
    &&& x + side_inset(height) <= i32::MAX
    &&& y + vertical_inset(height) <= i32::MAX
    &&& popup_height(height) * 2 <= i32::MAX
    &&& check_side(popup_height(height)) * 4 <= i32::MAX
}

/// Whether the popup's corner and the products on the way to it are representable.
pub fn popup_has_room(x: i32, y: i32, width: i32, height: i32) -> (r: bool)
    requires
        width > 0,
        height > 0,
    ensures
        r == popup_fits(x as int, y as int, width as int, height as int),
{
    let side: i32 = floored(height / 6, 4);
    let above: i32 = floored(height / 8, 3);
    let ph: i32 = floored(height - 2 * above, 12);
    if x > i32::MAX - side || y > i32::MAX - above || ph > i32::MAX / 2 {
        return false;
    }
    let wanted: i32 = floored(ph * 2 / 3, 16);
    let target: i32 = if wanted <= ph - 4 {
        wanted
    } else {
        ph - 4
    };
    let pill: i32 = if target % 2 == ph % 2 {
        target
    } else {
        target + 1
    };
    pill <= i32::MAX / 4
}

/// The popup as it is first shown.
#[derive(Clone, Copy, Debug, PartialEq, Eq, Structural)]
pub struct PopupPlan {
    pub geometry: PopupGeometry,
    /// The colour of the hovered check button.
    pub hover_color: u32,
}

/// Why no popup is shown.
#[derive(Clone, Copy, Debug, PartialEq, Eq, Structural)]
pub enum PopupError {
    /// The tab has no area.
    ZeroArea,
}

/// Plans the popup that takes the place of a tab while it is renamed; `bg_color` is
/// the tab's colour. A tab without area gets none.
pub fn show_rename_inline_popup(
    x: i32,
    y: i32,
    width: i32,
    height: i32,
    bg_color: u32,
) -> (r: Result<PopupPlan, PopupError>)
    requires
        width > 0 && height > 0 ==> popup_fits(x as int, y as int, width as int, height as int),
    ensures
        r == (if width > 0 && height > 0 {
            Ok::<PopupPlan, PopupError>(
                PopupPlan {
                    geometry: popup_for(x as int, y as int, width as int, height as int),
                    hover_color: lightened(bg_color, HOVER_LIFT) as u32,
                },
            )
        } else {
            Err(PopupError::ZeroArea)
        }),
{
    if width <= 0 || height <= 0 {
        return Err(PopupError::ZeroArea);
    }
    let side: i32 = floored(height / 6, 4);
    let above: i32 = floored(height / 8, 3);
    let pw: i32 = floored(width - 2 * side, 20);
    let ph: i32 = floored(height - 2 * above, 12);
    let inner: i32 = floored(ph / 6, 4);
    let wanted: i32 = floored(ph * 2 / 3, 16);
    let target: i32 = if wanted <= ph - 4 {
        wanted
    } else {
        ph - 4
    };
    let pill: i32 = if target % 2 == ph % 2 {
        target
    } else {
        target + 1
    };
    let breathing: i32 = floored((pill - floored(pill * 4 / 9, 8)) / 2, inner);
    let right: i32 = pw - breathing;
    let left: i32 = right - pill;
    let top: i32 = (ph - pill) / 2;
    let geometry = PopupGeometry {
        x: x + side,
        y: y + above,
        width: pw,
        height: ph,
        check: WindowBounds { left, top, right, bottom: top + pill },
    };
    Ok(PopupPlan { geometry, hover_color: lighten_bgr(bg_color, HOVER_LIFT) })
}

/// The check button is a square, exactly centred between top and bottom, and leaves
/// the side inset free at the right.
pub proof fn law_check_button_is_centred(width: int, height: int)
    requires
        width >= 20,
        height >= 12,
    ensures
        ({
            let (left, top, right, bottom) = check_bounds(width, height);
            &&& right - left == bottom - top
            &&& bottom - top == check_side(height)
            &&& check_side(height) >= 8
            &&& 0 < top
            &&& top == height - bottom
            &&& right <= width - side_inset(height)
        }),
{
    let target = at_most(at_least(height * 2 / 3, 16), height - 4);
    assert((height - check_side(height)) % 2 == 0);
}

/// A popup always has room for text and button.
pub proof fn law_popup_has_a_least_size(x: int, y: int, width: int, height: int)
    requires
        0 < width <= i32::MAX,
        0 < height <= i32::MAX,
    ensures
        popup_for(x, y, width, height).width >= 20,
        popup_for(x, y, width, height).height >= 12,
        popup_for(x, y, width, height).width == popup_width(width, height),
        popup_for(x, y, width, height).height == popup_height(height),
{
}

/// One channel of a colour, `delta` nearer to white.
pub open spec fn lifted(channel: int, delta: int) -> int {
    at_most(channel + delta, 255)
}

/// A colour with each of its three channels `delta` nearer to white.
pub open spec fn lightened(bgr: u32, delta: u32) -> int {
    lifted(bgr as int / 0x1_0000 % 0x100, delta as int) * 0x1_0000 + lifted(
        bgr as int / 0x100 % 0x100,
        delta as int,
    ) * 0x100 + lifted(bgr as int % 0x100, delta as int)
}

/// A colour with each of its three channels `delta` nearer to white.
pub fn lighten_bgr(bgr: u32, delta: u32) -> (r: u32)
    requires
        delta <= u32::MAX - 0xff,
    ensures
        r == lightened(bgr, delta),
        r <= 0xff_ffff,
{
    let low: u32 = lift(bgr % 0x100, delta);
    let middle: u32 = lift(bgr / 0x100 % 0x100, delta);
    let high: u32 = lift(bgr / 0x1_0000 % 0x100, delta);
    high * 0x1_0000 + middle * 0x100 + low
}

fn lift(channel: u32, delta: u32) -> (r: u32)
    requires
        channel < 0x100,
        delta <= u32::MAX - 0xff,
    ensures
        r == lifted(channel as int, delta as int),
{
    if channel + delta <= 255 {
        channel + delta
    } else {
        255
    }
}

/// Lightening by nothing keeps a colour, and lightening by a whole channel makes
/// it white.
pub proof fn law_lightening_goes_from_the_colour_to_white(bgr: u32)
    requires
        bgr <= 0xff_ffff,
    ensures
        lightened(bgr, 0) == bgr,
        lightened(bgr, 0xff) == 0xff_ffff,
{
    assert(bgr as int / 0x1_0000 % 0x100 == bgr as int / 0x1_0000);
    assert(bgr as int / 0x100 % 0x100 == bgr as int / 0x100 - 0x100 * (bgr as int / 0x1_0000));
}

/// The edit control's place depends on the popup's height, the height of the
/// title's letters, the size of the icon if there is one, and the check button.
pub open spec fn cell_height(font_height: int) -> int {
    at_least(font_height * 14 / 10, font_height + 2)
}

/// Space around the text, so that it is as far from the side as from the top.
pub open spec fn text_pad(client_height: int, font_height: int) -> int {
    at_least(window_rules::half(client_height - cell_height(font_height)), 3)
}

/// Where the edit control starts, after the icon if there is one.
pub open spec fn edit_left(
    client_height: int,
    font_height: int,
    icon: Option<i32>,
    strip_height: int,
) -> int {
    text_pad(client_height, font_height) + match icon {
        Some(size) => size + at_least(strip_height / 6, 4),
        None => 0,
    }
}

/// Where the edit control starts from the top, so that the letters are centred.
pub open spec fn edit_top(client_height: int, font_height: int) -> int {
    at_least(client_height / 2 - font_height / 2 - 2, 0)
}

/// Works out where the edit control goes. `icon` is the size of the tab's icon,
/// `check_left` the left edge of the check button.
pub fn edit_geometry(
    client_height: i32,
    font_height: i32,
    icon: Option<i32>,
    strip_height: i32,
    check_left: i32,
) -> (r: EditGeometry)
    requires
        1 <= client_height,
        8 <= font_height,
        font_height * 14 <= i32::MAX,
        0 < strip_height,
        icon matches Some(size) ==> 0 <= size,
        edit_left(client_height as int, font_height as int, icon, strip_height as int) + text_pad(
            client_height as int,
            font_height as int,
        ) <= i32::MAX,
        i32::MIN <= check_left - text_pad(client_height as int, font_height as int) - edit_left(
            client_height as int,
            font_height as int,
            icon,
            strip_height as int,
        ),
    ensures
        r.left == edit_left(client_height as int, font_height as int, icon, strip_height as int),
        r.top == edit_top(client_height as int, font_height as int),
        r.width == at_least(
            check_left - text_pad(client_height as int, font_height as int) - r.left,
            20,
        ),
        r.height == at_least(client_height - r.top - 1, cell_height(font_height as int) + 2),
{
    let cell: i32 = floored(font_height * 14 / 10, font_height + 2);
    let top: i32 = floored(client_height / 2 - font_height / 2 - 2, 0);
    let height: i32 = floored(client_height - top - 1, cell + 2);
    let pad: i32 = floored(window_rules::halved(client_height - cell), 3);
    let left: i32 = match icon {
        Some(size) => pad + size + floored(strip_height / 6, 4),
        None => pad,
    };
    EditGeometry { left, top, width: floored(check_left - pad - left, 20), height }
}

/// Where the tab's icon goes inside the popup: as far from the side as the text
/// would be, and centred between top and bottom.
pub fn icon_position(client_height: i32, font_height: i32, icon_size: i32) -> (r: (i32, i32))
    requires
        1 <= client_height,
        8 <= font_height,
        font_height * 14 <= i32::MAX,
        i32::MIN <= client_height - icon_size <= i32::MAX,
    ensures
        r.0 == text_pad(client_height as int, font_height as int),
        r.1 == centred(0, client_height as int, icon_size as int),
{
    let cell: i32 = floored(font_height * 14 / 10, font_height + 2);
    let left: i32 = floored(window_rules::halved(client_height - cell), 3);
    (left, window_rules::halved(client_height - icon_size))
}

/// Where something of one length goes so that it is centred in another.
pub open spec fn centred(start: int, length: int, inner: int) -> int {
    start + window_rules::half(length - inner)
}

/// Where the check glyph goes inside its button.
pub fn glyph_position(check: WindowBounds, glyph_width: i32, glyph_height: i32) -> (r: (i32, i32))
    requires
        check.fits(),
        i32::MIN <= check.right - check.left - glyph_width <= i32::MAX,
        i32::MIN <= check.bottom - check.top - glyph_height <= i32::MAX,
        i32::MIN <= centred(check.left as int, check.right - check.left, glyph_width as int)
            <= i32::MAX,
        i32::MIN <= centred(check.top as int, check.bottom - check.top, glyph_height as int)
            <= i32::MAX,
    ensures
        r.0 == centred(check.left as int, check.right - check.left, glyph_width as int),
        r.1 == centred(check.top as int, check.bottom - check.top, glyph_height as int),
{
    let dx: i32 = window_rules::halved(check.right - check.left - glyph_width);
    let dy: i32 = window_rules::halved(check.bottom - check.top - glyph_height);
    (check.left + dx, check.top + dy)
}

/// The tooltip for text of the given size, centred below a button at `anchor`.
pub open spec fn tooltip_for(anchor: WindowBounds, text_width: int, text_height: int) -> Placement {
    let width = text_width + 2 * TOOLTIP_PAD_X;
    let height = text_height + 2 * TOOLTIP_PAD_Y;
    Placement {
        x: (anchor.left + window_rules::half(anchor.right - anchor.left) - window_rules::half(
            width,
        )) as i32,
        y: (anchor.bottom + TOOLTIP_GAP) as i32,
        width: width as i32,
        height: height as i32,
    }
}

/// The coordinates of the tooltip are representable.
pub open spec fn tooltip_fits(anchor: WindowBounds, text_width: int, text_height: int) -> bool {
    let width = text_width + 2 * TOOLTIP_PAD_X;
    let middle = anchor.left + window_rules::half(anchor.right - anchor.left);
    &&& anchor.fits()
    &&& width <= i32::MAX
    &&& text_height + 2 * TOOLTIP_PAD_Y <= i32::MAX
    &&& i32::MIN <= middle <= i32::MAX
    &&& i32::MIN <= middle - window_rules::half(width) <= i32::MAX
    &&& anchor.bottom + TOOLTIP_GAP <= i32::MAX
}

/// Where the check button's tooltip goes. `anchor` is the button on the screen.
pub fn tooltip_placement(anchor: WindowBounds, text_width: i32, text_height: i32) -> (r: Placement)
    requires
        tooltip_fits(anchor, text_width as int, text_height as int),
    ensures
        r == tooltip_for(anchor, text_width as int, text_height as int),
{
    let width: i32 = text_width + 2 * TOOLTIP_PAD_X;
    let height: i32 = text_height + 2 * TOOLTIP_PAD_Y;
    let middle: i32 = anchor.left + window_rules::halved(anchor.right - anchor.left);
    Placement {
        x: middle - window_rules::halved(width),
        y: anchor.bottom + TOOLTIP_GAP,
        width,
        height,
    }
}

/// The corner radius of the hovered button: a third of its shorter side, at least
/// three and at most half of it.
pub fn pill_radius(width: i32, height: i32) -> (r: i32)
    requires
        width >= 6,
        height >= 6,
    ensures
        ({
            let side = at_most(width as int, height as int);
            r == at_most(at_least(side / 3, 3), side / 2)
        }),
{
    let side: i32 = if width <= height {
        width
    } else {
        height
    };
    let third: i32 = floored(side / 3, 3);
    if third <= side / 2 {
        third
    } else {
        side / 2
    }
}

/// A channel premultiplied by an alpha value; full alpha leaves it as it is.
pub open spec fn premultiplied(channel: u8, alpha: u8) -> u8 {
    if alpha < 0xff {
        (channel as int * alpha as int / 255) as u8
    } else {
        channel
    }
}

fn premultiply_channel(channel: u8, alpha: u8) -> (r: u8)
    ensures
        r == premultiplied(channel, alpha),
{
    if alpha < 0xff {
        assert(0 <= channel as int * alpha as int <= 255 * 255) by (nonlinear_arith)
            requires
                channel <= 255,
                alpha <= 255,
        ;
        let product: u32 = channel as u32 * alpha as u32;
        (product / 255) as u8
    } else {
        channel
    }
}

/// Premultiplies the three colour channels of every four-byte pixel by its alpha.
pub fn premultiply(pixels: &mut Vec<u8>)
    requires
        old(pixels)@.len() % 4 == 0,
    ensures
        final(pixels)@.len() == old(pixels)@.len(),
        forall|k: int|
            0 <= k < old(pixels)@.len() ==> #[trigger] final(pixels)@[k] == (if k % 4 == 3 {
                old(pixels)@[k]
            } else {
                premultiplied(old(pixels)@[k], old(pixels)@[k - k % 4 + 3])
            }),
{
    let ghost before = pixels@;
    let n: usize = pixels.len();
    let mut i: usize = 0;
    while i < n
        invariant
            i <= n,
            n == before.len(),
            pixels@.len() == n,
            n % 4 == 0,
            i % 4 == 0,
            forall|k: int| i <= k < n ==> #[trigger] pixels@[k] == before[k],
            forall|k: int|
                0 <= k < i ==> #[trigger] pixels@[k] == (if k % 4 == 3 {
                    before[k]
                } else {
                    premultiplied(before[k], before[k - k % 4 + 3])
                }),
        decreases n - i,
    {
        assert(i + 4 <= n);
        let alpha: u8 = pixels[i + 3];
        let a: u8 = premultiply_channel(pixels[i], alpha);
        let b: u8 = premultiply_channel(pixels[i + 1], alpha);
        let c: u8 = premultiply_channel(pixels[i + 2], alpha);
        pixels.set(i, a);
        pixels.set(i + 1, b);
        pixels.set(i + 2, c);
        i = i + 4;
    }
}

/// A premultiplied channel never exceeds its alpha.
pub proof fn law_premultiplied_channel_is_at_most_alpha(channel: u8, alpha: u8)
    ensures
        premultiplied(channel, alpha) <= alpha,
{
    if alpha < 0xff {
        assert(channel as int * alpha as int / 255 <= alpha) by (nonlinear_arith)
            requires
                channel <= 255,
                alpha <= 255,
        ;
        assert(channel as int * alpha as int / 255 >= 0) by (nonlinear_arith)
            requires
                channel <= 255,
                alpha <= 255,
        ;
    }
}

/// The signed value of a sixteen-bit word.
pub open spec fn signed_word(word: int) -> int {
    if word >= 0x8000 {
        word - 0x1_0000
    } else {
        word
    }
}

/// The point that a mouse message packs: x in the low word, y in the high one.
pub open spec fn point_of(packed: u32) -> (int, int) {
    (signed_word(packed as int % 0x1_0000), signed_word(packed as int / 0x1_0000))
}

/// The point lies in the rectangle; right and bottom edge are outside.
pub open spec fn within(bounds: WindowBounds, x: int, y: int) -> bool {
    bounds.left <= x < bounds.right && bounds.top <= y < bounds.bottom
}

fn word_value(word: u32) -> (r: i32)
    requires
        word < 0x1_0000,
    ensures
        r == signed_word(word as int),
{
    if word >= 0x8000 {
        word as i32 - 0x1_0000
    } else {
        word as i32
    }
}

/// The point that a mouse message packs.
pub fn unpack_point(packed: u32) -> (r: (i32, i32))
    ensures
        (r.0 as int, r.1 as int) == point_of(packed),
{
    (word_value(packed % 0x1_0000), word_value(packed / 0x1_0000))
}

/// Whether the point lies in the rectangle.
pub fn hits(bounds: WindowBounds, x: i32, y: i32) -> (r: bool)
    ensures
        r == within(bounds, x as int, y as int),
{
    x >= bounds.left && x < bounds.right && y >= bounds.top && y < bounds.bottom
}

/// What becomes of the tooltip.
#[derive(Clone, Copy, Debug, PartialEq, Eq, Structural)]
pub enum TooltipChange {
    Stay,
    Show,
    Hide,
}

/// What a move of the pointer leaves to be done.
#[derive(Clone, Copy, Debug, PartialEq, Eq, Structural)]
pub struct HoverEffects {
    /// Ask to be told when the pointer leaves.
    pub arm_tracking: bool,
    /// Repaint the check button.
    pub repaint: bool,
    pub tooltip: TooltipChange,
}

/// What a change of activation leaves to be done.
#[derive(Clone, Copy, Debug, PartialEq, Eq, Structural)]
pub enum ActivationEffect {
    Nothing,
    /// Give the edit control the focus and select its text.
    FocusEdit,
    /// Drop the text.
    Cancel,
}

/// What taking the text leaves to be done.
#[derive(Clone, Copy, Debug, PartialEq, Eq, Structural)]
pub enum CommitEffect {
    /// The text is too long: select it again.
    Reject,
    /// Close the popup.
    Close,
}

/// What a key does in the edit control.
#[derive(Clone, Copy, Debug, PartialEq, Eq, Structural)]
pub enum EditKey {
    Cancel,
    Commit,
    /// The edit control handles it.
    Forward,
}

/// Which handler a message goes to.
#[derive(Clone, Copy, Debug, PartialEq, Eq, Structural)]
pub enum PopupMessage {
    Create,
    EraseBackground,
    SetCursor,
    Paint,
    MouseMove,
    MouseLeave,
    FadeTick,
    ButtonDown,
    Activate,
    EditColours,
    Commit,
    Cancel,
    Close,
    Destroy,
    Default,
}

/// The popup's state.
pub struct PopupContext {
    pub check: WindowBounds,
    pub activated: bool,
    pub finishing: bool,
    pub check_hovered: bool,
    pub tracking_armed: bool,
    pub has_tooltip: bool,
    pub tooltip_visible: bool,
    pub result: Option<String>,
}

/// The handler of a message. A timer other than the fade's is nobody's.
pub fn route_message(message: u32, wparam: usize) -> (r: PopupMessage)
    ensures
        r == (if message == WM_CREATE {
            PopupMessage::Create
        } else if message == WM_ERASEBKGND {
            PopupMessage::EraseBackground
        } else if message == WM_SETCURSOR {
            PopupMessage::SetCursor
        } else if message == WM_PAINT {
            PopupMessage::Paint
        } else if message == WM_MOUSEMOVE {
            PopupMessage::MouseMove
        } else if message == WM_MOUSELEAVE {
            PopupMessage::MouseLeave
        } else if message == WM_TIMER && wparam == FADE_TIMER_ID {
            PopupMessage::FadeTick
        } else if message == WM_LBUTTONDOWN {
            PopupMessage::ButtonDown
        } else if message == WM_ACTIVATE {
            PopupMessage::Activate
        } else if message == WM_CTLCOLOREDIT {
            PopupMessage::EditColours
        } else if message == WM_INLINE_RENAME_COMMIT {
            PopupMessage::Commit
        } else if message == WM_INLINE_RENAME_CANCEL {
            PopupMessage::Cancel
        } else if message == WM_CLOSE {
            PopupMessage::Close
        } else if message == WM_DESTROY {
            PopupMessage::Destroy
        } else {
            PopupMessage::Default
        }),
{
    if message == WM_CREATE {
        PopupMessage::Create
    } else if message == WM_ERASEBKGND {
        PopupMessage::EraseBackground
    } else if message == WM_SETCURSOR {
        PopupMessage::SetCursor
    } else if message == WM_PAINT {
        PopupMessage::Paint
    } else if message == WM_MOUSEMOVE {
        PopupMessage::MouseMove
    } else if message == WM_MOUSELEAVE {
        PopupMessage::MouseLeave
    } else if message == WM_TIMER && wparam == FADE_TIMER_ID {
        PopupMessage::FadeTick
    } else if message == WM_LBUTTONDOWN {
        PopupMessage::ButtonDown
    } else if message == WM_ACTIVATE {
        PopupMessage::Activate
    } else if message == WM_CTLCOLOREDIT {
        PopupMessage::EditColours
    } else if message == WM_INLINE_RENAME_COMMIT {
        PopupMessage::Commit
    } else if message == WM_INLINE_RENAME_CANCEL {
        PopupMessage::Cancel
    } else if message == WM_CLOSE {
        PopupMessage::Close
    } else if message == WM_DESTROY {
        PopupMessage::Destroy
    } else {
        PopupMessage::Default
    }
}

/// What a key message does in the edit control: Esc drops the text, Enter takes it.
pub fn edit_key(message: u32, key: u16) -> (r: EditKey)
    ensures
        r == (if message != WM_KEYDOWN && message != WM_CHAR {
            EditKey::Forward
        } else if key == VK_ESCAPE {
            EditKey::Cancel
        } else if key == VK_RETURN {
            EditKey::Commit
        } else {
            EditKey::Forward
        }),
{
    if message == WM_KEYDOWN || message == WM_CHAR {
        if key == VK_ESCAPE {
            return EditKey::Cancel;
        }
        if key == VK_RETURN {
            return EditKey::Commit;
        }
    }
    EditKey::Forward
}

/// Whether the fade is over.
pub fn fade_is_over(elapsed_ms: u64) -> (r: bool)
    ensures
        r == (elapsed_ms >= FADE_DURATION_MS),
{
    elapsed_ms >= FADE_DURATION_MS
}

/// Length of a title in UTF-8 bytes.
pub open spec fn title_bytes(title: Seq<char>) -> nat {
    vstd::utf8::encode_utf8(title).len()
}

/// What happens to the popup.
pub enum PopupAction {
    /// The pointer moved to a packed point.
    MouseMove(u32),
    /// The pointer left.
    MouseLeave,
    /// The popup was activated or lost its activation.
    Activate(u16),
    /// The text is to be taken.
    Commit(String),
    /// The text is to be dropped.
    Cancel,
}

impl PopupAction {
    /// The action ends the popup: a title that is not too long is taken, or the text is
    /// dropped.
    pub open spec fn ends(self) -> bool {
        match self {
            PopupAction::Commit(text) => title_bytes(text@) <= TAB_TITLE_MAX_BYTES,
            PopupAction::Cancel => true,
            _ => false,
        }
    }
}

impl PopupContext {
    /// What an action leaves of a popup, as far as its end and its result go.
    pub open spec fn performed(
        before: PopupContext,
        after: PopupContext,
        action: PopupAction,
    ) -> bool {
        &&& after.finishing == (before.finishing || action.ends())
        &&& after.result == (match action {
            PopupAction::Commit(text) if action.ends() => Some(text),
            _ => before.result,
        })
    }

    /// `states` are the popup before, between and after the actions, from its start to
    /// the first action that ends it, if any does.
    pub open spec fn is_run(states: Seq<PopupContext>, actions: Seq<PopupAction>) -> bool {
        &&& states.len() == actions.len() + 1
        &&& states[0].result is None
        &&& !states[0].finishing
        &&& forall|k: int|
            0 <= k < actions.len() ==> Self::performed(
                states[k],
                states[k + 1],
                #[trigger] actions[k],
            )
        &&& forall|k: int| 0 <= k < actions.len() ==> !(#[trigger] states[k]).finishing
    }

    /// The tooltip shows only where there is one, and a title that was taken is not
    /// too long and closes the popup.
    pub open spec fn wf(self) -> bool {
        &&& self.tooltip_visible ==> self.has_tooltip
        &&& self.result matches Some(title) ==> title_bytes(title@) <= TAB_TITLE_MAX_BYTES
            && self.finishing
    }

    /// A popup that was not activated yet.
    pub fn new(check: WindowBounds, has_tooltip: bool) -> (r: PopupContext)
        ensures
            r.wf(),
            r == (PopupContext {
                check,
                activated: false,
                finishing: false,
                check_hovered: false,
                tracking_armed: false,
                has_tooltip,
                tooltip_visible: false,
                result: None,
            }),
    {
        PopupContext {
            check,
            activated: false,
            finishing: false,
            check_hovered: false,
            tracking_armed: false,
            has_tooltip,
            tooltip_visible: false,
            result: None,
        }
    }

    /// The pointer moved to the packed point: the check button lights up and shows
    /// its tooltip while the pointer is over it.
    pub fn on_mouse_move(&mut self, packed: u32) -> (r: HoverEffects)
        requires
            old(self).wf(),
        ensures
            ({
                let (x, y) = point_of(packed);
                let over = within(old(self).check, x, y);
                let turned = over != old(self).check_hovered;
                &&& final(self).wf()
                &&& Self::performed(*old(self), *final(self), PopupAction::MouseMove(packed))
                &&& r.arm_tracking == !old(self).tracking_armed
                &&& r.repaint == turned
                &&& r.tooltip == (if !turned || !old(self).has_tooltip || old(self).tooltip_visible
                    == over {
                    TooltipChange::Stay
                } else if over {
                    TooltipChange::Show
                } else {
                    TooltipChange::Hide
                })
                &&& *final(self) == (PopupContext {
                    tracking_armed: true,
                    check_hovered: over,
                    tooltip_visible: if turned && old(self).has_tooltip {
                        over
                    } else {
                        old(self).tooltip_visible
                    },
                    ..*old(self)
                })
            }),
    {
        let arm_tracking = !self.tracking_armed;
        self.tracking_armed = true;
        let (x, y) = unpack_point(packed);
        let over = hits(self.check, x, y);
        let mut effects = HoverEffects {
            arm_tracking,
            repaint: false,
            tooltip: TooltipChange::Stay,
        };
        if over != self.check_hovered {
            self.check_hovered = over;
            effects.repaint = true;
            if self.has_tooltip {
                if over && !self.tooltip_visible {
                    effects.tooltip = TooltipChange::Show;
                    self.tooltip_visible = true;
                } else if !over && self.tooltip_visible {
                    effects.tooltip = TooltipChange::Hide;
                    self.tooltip_visible = false;
                }
            }
        }
        effects
    }

    /// The pointer left the popup.
    pub fn on_mouse_leave(&mut self) -> (r: HoverEffects)
        requires
            old(self).wf(),
        ensures
            final(self).wf(),
            Self::performed(*old(self), *final(self), PopupAction::MouseLeave),
            !r.arm_tracking,
            r.repaint == old(self).check_hovered,
            r.tooltip == (if old(self).tooltip_visible {
                TooltipChange::Hide
            } else {
                TooltipChange::Stay
            }),
            *final(self) == (PopupContext {
                tracking_armed: false,
                check_hovered: false,
                tooltip_visible: false,
                ..*old(self)
            }),
    {
        self.tracking_armed = false;
        let repaint = self.check_hovered;
        self.check_hovered = false;
        let tooltip = if self.tooltip_visible && self.has_tooltip {
            self.tooltip_visible = false;
            TooltipChange::Hide
        } else {
            TooltipChange::Stay
        };
        HoverEffects { arm_tracking: false, repaint, tooltip }
    }

    /// Whether a click at the packed point takes the text.
    pub fn on_lbutton_down(&self, packed: u32) -> (commit: bool)
        ensures
            commit == within(self.check, point_of(packed).0, point_of(packed).1),
    {
        let (x, y) = unpack_point(packed);
        hits(self.check, x, y)
    }

    /// Whether the cursor at a point of the popup is the arrow and not the text
    /// cursor.
    pub fn on_set_cursor(&self, x: i32, y: i32) -> (arrow: bool)
        ensures
            arrow == within(self.check, x as int, y as int),
    {
        hits(self.check, x, y)
    }

    /// The popup was activated (`state` is not zero) or lost its activation. Losing
    /// it drops the text, but not before the popup was active for the first time,
    /// and not once it is closing anyway.
    pub fn on_activate(&mut self, state: u16, has_edit: bool) -> (r: ActivationEffect)
        ensures
            old(self).wf() ==> final(self).wf(),
            Self::performed(*old(self), *final(self), PopupAction::Activate(state)),
            *final(self) == (PopupContext {
                activated: old(self).activated || state != 0,
                ..*old(self)
            }),
            r == (if state != 0 {
                if has_edit {
                    ActivationEffect::FocusEdit
                } else {
                    ActivationEffect::Nothing
                }
            } else if old(self).activated && !old(self).finishing {
                ActivationEffect::Cancel
            } else {
                ActivationEffect::Nothing
            }),
    {
        if state != 0 {
            self.activated = true;
            if has_edit {
                ActivationEffect::FocusEdit
            } else {
                ActivationEffect::Nothing
            }
        } else if self.activated && !self.finishing {
            ActivationEffect::Cancel
        } else {
            ActivationEffect::Nothing
        }
    }

    /// Takes the text, unless it is longer than a title may be.
    pub fn on_commit(&mut self, text: String) -> (r: CommitEffect)
        ensures
            old(self).wf() ==> final(self).wf(),
            Self::performed(*old(self), *final(self), PopupAction::Commit(text)),
            r == (if title_bytes(text@) > TAB_TITLE_MAX_BYTES {
                CommitEffect::Reject
            } else {
                CommitEffect::Close
            }),
            r == CommitEffect::Reject ==> *final(self) == *old(self),
            r == CommitEffect::Close ==> *final(self) == (PopupContext {
                result: Some(text),
                finishing: true,
                ..*old(self)
            }),
    {
        if text.as_str().as_bytes().len() > TAB_TITLE_MAX_BYTES {
            return CommitEffect::Reject;
        }
        self.result = Some(text);
        self.finishing = true;
        CommitEffect::Close
    }

    /// Drops the text: the popup closes without a result of its own.
    pub fn on_cancel(&mut self)
        ensures
            old(self).wf() ==> final(self).wf(),
            Self::performed(*old(self), *final(self), PopupAction::Cancel),
            *final(self) == (PopupContext { finishing: true, ..*old(self) }),
    {
        self.finishing = true;
    }
}

proof fn lemma_open_popup_has_no_result(
    states: Seq<PopupContext>,
    actions: Seq<PopupAction>,
    k: int,
)
    requires
        PopupContext::is_run(states, actions),
        0 <= k < actions.len(),
    ensures
        states[k].result is None,
        k > 0 ==> !actions[k - 1].ends(),
    decreases k,
{
    if k > 0 {
        lemma_open_popup_has_no_result(states, actions, k - 1);
        assert(PopupContext::performed(states[k - 1], states[k - 1 + 1], actions[k - 1]));
        assert(!states[k].finishing);
    }
}

/// A popup ends with a title just where its last action was to take a text that is not
/// too long, and then with that; it ends without one just where its last action was to
/// drop the text. No other action ends it, and one to take a longer text does not.
pub proof fn law_popup_ends_as_its_last_action_says(
    states: Seq<PopupContext>,
    actions: Seq<PopupAction>,
)
    requires
        PopupContext::is_run(states, actions),
    ensures
        states.last().finishing <==> actions.len() > 0 && actions.last().ends(),
        states.last().result == (if actions.len() > 0 {
            match actions.last() {
                PopupAction::Commit(text) if title_bytes(text@) <= TAB_TITLE_MAX_BYTES => Some(
                    text,
                ),
                _ => None,
            }
        } else {
            None
        }),
        states.last().finishing && states.last().result is None <==> actions.len() > 0
            && actions.last() is Cancel,
        forall|k: int| 0 <= k < actions.len() - 1 ==> !(#[trigger] actions[k]).ends(),
{
    if actions.len() > 0 {
        let n = actions.len() - 1;
        lemma_open_popup_has_no_result(states, actions, n);
        assert(PopupContext::performed(states[n], states[n + 1], actions[n]));
        assert(!states[n].finishing);
        assert forall|k: int| 0 <= k < actions.len() - 1 implies !(#[trigger] actions[k]).ends() by {
            lemma_open_popup_has_no_result(states, actions, k + 1);
        }
    }
}

/// The popup lies inside its tab: sideways a sixth of the tab's height is left free, and at
/// least four pixels, above an eighth, and at least three; what is left free on the other
/// side is the same, unless the popup would get too small.
pub proof fn law_popup_lies_inside_its_tab(x: int, y: int, width: int, height: int)
    requires
        i32::MIN <= x,
        i32::MIN <= y,
        0 < width <= i32::MAX,
        0 < height <= i32::MAX,
        popup_fits(x, y, width, height),
    ensures
        ({
            let popup = popup_for(x, y, width, height);
            let side = popup.x - x;
            let above = popup.y - y;
            &&& height >= 24 ==> side == height / 6
            &&& height < 24 ==> side == 4
            &&& height >= 24 ==> above == height / 8
            &&& height < 24 ==> above == 3
            &&& width >= 20 + 2 * side ==> x + width - (popup.x + popup.width) == side
            &&& width < 20 + 2 * side ==> popup.width == 20
            &&& height >= 12 + 2 * above ==> y + height - (popup.y + popup.height) == above
            &&& height < 12 + 2 * above ==> popup.height == 12
        }),
{
}

/// The check button is a square of two thirds of the popup's height, but of sixteen pixels
/// at least and of four less than the height at most, made one larger where it could not
/// be centred else.
pub proof fn law_check_button_is_two_thirds_high(width: int, height: int)
    requires
        height >= 12,
    ensures
        ({
            let (left, top, right, bottom) = check_bounds(width, height);
            let side = bottom - top;
            let wanted = if height < 20 {
                height - 4
            } else if height < 24 {
                16
            } else {
                height * 2 / 3
            };
            &&& right - left == side
            &&& top == height - bottom
            &&& wanted <= side <= wanted + 1
            &&& wanted % 2 == height % 2 ==> side == wanted
        }),
{
    let side = check_side(height);
    assert((height - side) % 2 == 0);
}

/// What the check button leaves free at the right is as much as the glyph in it leaves
/// free beside it, where the glyph has four ninths of the button and eight pixels at
/// least; and it is no less than the popup's own inset.
pub proof fn law_check_button_keeps_its_distance(width: int, height: int)
    requires
        height >= 12,
    ensures
        ({
            let (left, top, right, bottom) = check_bounds(width, height);
            let side = bottom - top;
            let glyph = if side < 18 {
                8
            } else {
                side * 4 / 9
            };
            let inset = if height < 24 {
                4
            } else {
                height / 6
            };
            let beside = (side - glyph) / 2;
            &&& width - right >= inset
            &&& width - right >= beside
            &&& width - right == inset || width - right == beside
        }),
{
    assert((height - check_side(height)) % 2 == 0);
}

/// Each channel of a colour is lightened by itself, and none beyond white; what stands
/// above the three channels is dropped.
pub proof fn law_channels_are_lightened_alone(
    bgr: u32,
    rest: int,
    blue: int,
    green: int,
    red: int,
    delta: u32,
)
    requires
        0 <= rest,
        0 <= blue < 0x100,
        0 <= green < 0x100,
        0 <= red < 0x100,
        bgr == rest * 0x100_0000 + blue * 0x1_0000 + green * 0x100 + red,
    ensures
        ({
            let r = lightened(bgr, delta);
            &&& r / 0x1_0000 == (if blue + delta > 255 {
                255
            } else {
                blue + delta
            })
            &&& r / 0x100 % 0x100 == (if green + delta > 255 {
                255
            } else {
                green + delta
            })
            &&& r % 0x100 == (if red + delta > 255 {
                255
            } else {
                red + delta
            })
        }),
{
    lemma_channels(bgr as int, rest, blue, green, red);
    let b = lifted(blue, delta as int);
    let g = lifted(green, delta as int);
    let r = lifted(red, delta as int);
    lemma_channels(lightened(bgr, delta), 0, b, g, r);
}

proof fn lemma_channels(colour: int, rest: int, blue: int, green: int, red: int)
    requires
        0 <= rest,
        0 <= blue < 0x100,
        0 <= green < 0x100,
        0 <= red < 0x100,
        colour == rest * 0x100_0000 + blue * 0x1_0000 + green * 0x100 + red,
    ensures
        colour / 0x1_0000 == rest * 0x100 + blue,
        colour / 0x1_0000 % 0x100 == blue,
        colour / 0x100 % 0x100 == green,
        colour % 0x100 == red,
{
    assert(colour / 0x1_0000 == rest * 0x100 + blue);
    assert((rest * 0x100 + blue) % 0x100 == blue);
    assert(colour / 0x100 == rest * 0x1_0000 + blue * 0x100 + green);
    assert((rest * 0x1_0000 + blue * 0x100 + green) % 0x100 == green);
    assert(colour % 0x100 == red);
}

/// The larger and the smaller of two numbers.
pub proof fn law_limits_hold(n: int, limit: int)
    ensures
        at_least(n, limit) >= n && at_least(n, limit) >= limit,
        at_least(n, limit) == n || at_least(n, limit) == limit,
        at_most(n, limit) <= n && at_most(n, limit) <= limit,
        at_most(n, limit) == n || at_most(n, limit) == limit,
{
}

/// The line of the text is seven fifths of its letters high, and two pixels higher than
/// they are at least; beside the text as much is left free as above that line, and three
/// pixels at least.
pub proof fn law_text_is_as_far_from_the_side_as_from_the_top(client_height: int, font_height: int)
    requires
        1 <= client_height,
        8 <= font_height,
    ensures
        ({
            let pad = text_pad(client_height, font_height);
            let line = cell_height(font_height);
            &&& line == font_height * 14 / 10
            &&& pad >= 3
            &&& client_height >= line + 6 ==> 0 <= (client_height - line - pad) - pad <= 1
            &&& client_height < line + 8 ==> pad == 3
        }),
{
}

/// The edit control starts where the text is to start, moved on by the icon and the space
/// beside it where there is one.
pub proof fn law_icons_move_the_text_on(
    client_height: int,
    font_height: int,
    size: i32,
    strip_height: int,
)
    requires
        0 < strip_height,
    ensures
        edit_left(client_height, font_height, None, strip_height) == text_pad(
            client_height,
            font_height,
        ),
        edit_left(client_height, font_height, Some(size), strip_height) == edit_left(
            client_height,
            font_height,
            None,
            strip_height,
        ) + size + (if strip_height < 24 {
            4
        } else {
            strip_height / 6
        }),
{
}

/// The letters are centred, two pixels of the control above them, where there is room.
pub proof fn law_letters_are_centred(client_height: int, font_height: int)
    requires
        1 <= client_height,
        1 <= font_height,
    ensures
        ({
            let top = edit_top(client_height, font_height);
            let above = top + 2;
            let below = client_height - above - font_height;
            &&& top >= 0
            &&& client_height >= font_height + 5 ==> -1 <= below - above <= 1
            &&& client_height <= font_height + 3 ==> top == 0
        }),
{
}

/// Something that is centred has as much space before it as behind it, but for one pixel
/// that goes behind it.
pub proof fn law_centred_things_have_equal_space(start: int, length: int, inner: int)
    ensures
        ({
            let before = centred(start, length, inner) - start;
            let behind = start + length - (centred(start, length, inner) + inner);
            &&& length >= inner ==> 0 <= before <= behind <= before + 1
            &&& length < inner ==> 0 >= before >= behind >= before - 1
        }),
{
}

/// The tooltip has room for its text, with a margin of fourteen pixels at the sides and
/// eight above and below, hangs six pixels below the button, and is centred under it but
/// for one pixel.
pub proof fn law_tooltip_hangs_below_the_button(
    anchor: WindowBounds,
    text_width: int,
    text_height: int,
)
    requires
        tooltip_fits(anchor, text_width, text_height),
        anchor.left <= anchor.right,
        anchor.top <= anchor.bottom,
        0 <= text_width,
        0 <= text_height,
    ensures
        ({
            let tip = tooltip_for(anchor, text_width, text_height);
            &&& tip.width == text_width + 14 + 14
            &&& tip.height == text_height + 8 + 8
            &&& tip.y == anchor.bottom + 6
            &&& -1 <= (tip.x - anchor.left) - (anchor.right - (tip.x + tip.width)) <= 1
        }),
{
}

/// Premultiplying scales a channel by its alpha, rounded down; a channel of full alpha
/// stays, and one of no alpha is gone.
pub proof fn law_channels_are_scaled_by_alpha(channel: u8, alpha: u8)
    ensures
        premultiplied(channel, alpha) * 255 <= channel * alpha,
        channel * alpha < (premultiplied(channel, alpha) + 1) * 255,
        premultiplied(channel, 255) == channel,
        premultiplied(channel, 0) == 0,
{
    law_premultiplied_channel_is_at_most_alpha(channel, alpha);
    let product = channel as int * alpha as int;
    assert(0 <= product <= 255 * 255) by (nonlinear_arith)
        requires
            product == channel as int * alpha as int,
            channel <= 255,
            alpha <= 255,
    ;
    assert(product / 255 * 255 <= product < (product / 255 + 1) * 255);
    if alpha == 255 {
        assert(product == channel as int * 255);
    }
    assert(channel as int * 0 / 255 == 0);
}

/// A message packs the two coordinates into halves of a word, negative ones as what they
/// are short of a full half.
pub proof fn law_points_are_unpacked(x: int, y: int, packed: u32)
    requires
        -0x8000 <= x < 0x8000,
        -0x8000 <= y < 0x8000,
        packed == (if x < 0 {
            x + 0x1_0000
        } else {
            x
        }) + 0x1_0000 * (if y < 0 {
            y + 0x1_0000
        } else {
            y
        }),
    ensures
        point_of(packed) == (x, y),
{
}

/// A point lies in the rectangle from its left and top edge on and up to its right and
/// bottom edge, which are outside.
pub proof fn law_rectangles_are_half_open(bounds: WindowBounds, x: int, y: int)
    ensures
        within(bounds, x, y) <==> !(x < bounds.left || x >= bounds.right || y < bounds.top || y
            >= bounds.bottom),
{
}

/// An action takes a title just where it commits one of no more than 128 bytes, and then
/// takes all of it; it closes the popup just where it takes a title or drops the text.
pub proof fn law_actions_take_titles_that_fit(
    before: PopupContext,
    after: PopupContext,
    action: PopupAction,
)
    requires
        PopupContext::performed(before, after, action),
    ensures
        match action {
            PopupAction::Commit(text) => if vstd::utf8::encode_utf8(text@).len() <= 128 {
                after.finishing && after.result == Some(text)
            } else {
                after.finishing == before.finishing && after.result == before.result
            },
            PopupAction::Cancel => after.finishing && after.result == before.result,
            _ => after.finishing == before.finishing && after.result == before.result,
        },
{
}

/// Each message goes to the handler of its number, and the timer's only with the fade's
/// identifier; every other message is left to the system.
pub proof fn law_messages_go_to_their_handler(message: u32, wparam: usize, handler: PopupMessage)
    requires
        call_ensures(route_message, (message, wparam), handler),
    ensures
        match handler {
            PopupMessage::Create => message == 0x0001,
            PopupMessage::Destroy => message == 0x0002,
            PopupMessage::Activate => message == 0x0006,
            PopupMessage::Paint => message == 0x000f,
            PopupMessage::Close => message == 0x0010,
            PopupMessage::EraseBackground => message == 0x0014,
            PopupMessage::SetCursor => message == 0x0020,
            PopupMessage::FadeTick => message == 0x0113 && wparam == 0xb1,
            PopupMessage::EditColours => message == 0x0133,
            PopupMessage::MouseMove => message == 0x0200,
            PopupMessage::ButtonDown => message == 0x0201,
            PopupMessage::MouseLeave => message == 0x02a3,
            PopupMessage::Commit => message == 0x0414,
            PopupMessage::Cancel => message == 0x0415,
            PopupMessage::Default => message != 0x0001 && message != 0x0002 && message != 0x0006
                && message != 0x000f && message != 0x0010 && message != 0x0014 && message != 0x0020
                && (message != 0x0113 || wparam != 0xb1) && message != 0x0133 && message != 0x0200
                && message != 0x0201 && message != 0x02a3 && message != 0x0414 && message
                != 0x0415,
        },
{
}

/// Escape drops the text and Enter takes it, whether the key goes down or comes as a
/// character; nothing else does either.
pub proof fn law_escape_and_enter_end_the_edit(message: u32, key: u16, r: EditKey)
    requires
        call_ensures(edit_key, (message, key), r),
    ensures
        r == EditKey::Cancel <==> (message == 0x0100 || message == 0x0102) && key == 27,
        r == EditKey::Commit <==> (message == 0x0100 || message == 0x0102) && key == 13,
{
}

/// The popup fades in over eighty milliseconds.
pub proof fn law_fades_end(elapsed_ms: u64, over: bool)
    requires
        call_ensures(fade_is_over, (elapsed_ms,), over),
    ensures
        over <==> elapsed_ms > 79,
{
}

/// A hovered button is rounded by a third of its shorter side, by three pixels at least
/// and never by more than half of that side.
pub proof fn law_buttons_are_rounded_by_a_third(width: i32, height: i32, radius: i32)
    requires
        width >= 6,
        height >= 6,
        call_ensures(pill_radius, (width, height), radius),
    ensures
        2 * radius <= width && 2 * radius <= height,
        radius >= 3,
        width <= height && width >= 9 ==> 3 * radius <= width < 3 * radius + 3,
        height <= width && height >= 9 ==> 3 * radius <= height < 3 * radius + 3,
{
}

/// A tab gets a popup just where it has an area; its hovered button is of the tab's colour
/// with each channel twenty-eight steps nearer to white.
pub proof fn law_tabs_with_an_area_get_a_popup(
    x: i32,
    y: i32,
    width: i32,
    height: i32,
    blue: int,
    green: int,
    red: int,
    bg_color: u32,
    r: Result<PopupPlan, PopupError>,
)
    requires
        call_ensures(show_rename_inline_popup, (x, y, width, height, bg_color), r),
        0 <= blue <= 227,
        0 <= green <= 227,
        0 <= red <= 227,
        bg_color == blue * 0x1_0000 + green * 0x100 + red,
    ensures
        r is Ok <==> width > 0 && height > 0,
        r matches Ok(plan) ==> plan.hover_color == (blue + 28) * 0x1_0000 + (green + 28) * 0x100
            + red + 28,
        r matches Ok(plan) ==> plan.geometry == popup_for(
            x as int,
            y as int,
            width as int,
            height as int,
        ),
{
    lemma_channels(bg_color as int, 0, blue, green, red);
}

/// A popup fits for every tab of a common size at a common place.
pub proof fn law_common_popups_fit(x: int, y: int, width: int, height: int)
    requires
        x <= 1_000_000_000,
        y <= 1_000_000_000,
        0 < width,
        0 < height <= 500_000_000,
    ensures
        popup_fits(x, y, width, height),
{
}

/// A tooltip fits for every button and text of common sizes at a common place.
pub proof fn law_common_tooltips_fit(anchor: WindowBounds, text_width: int, text_height: int)
    requires
        -500_000_000 <= anchor.left <= anchor.right <= 500_000_000,
        -500_000_000 <= anchor.top <= anchor.bottom <= 500_000_000,
        0 <= text_width <= 500_000_000,
        0 <= text_height <= 500_000_000,
    ensures
        tooltip_fits(anchor, text_width, text_height),
{
}

} // verus!
