//! The tray: its menu's texts and actions, and the badge drawn on its icon when an update is
//! available.
use vstd::prelude::*;
use crate::server::AuthState;
use crate::text::{chars_eq, chars_of};
use vstd::string::StringExecFns;

verus! {

/// The greeting the front end shows.
pub fn greet(name: &str) -> (r: String)
    ensures
        r@ == "Hello, "@ + name@ + "! Fabbit에서 인사드립니다!"@,
{
    let mut r = "Hello, ".to_owned();
    r.append(name);
    r.append("! Fabbit에서 인사드립니다!");
    r
}

/// The tray's user item: the signed-in user, or a prompt to sign in.
pub fn tray_display_name(state: &AuthState) -> (r: String)
    ensures
        state.logged_in ==> r@ == state.username@,
        !state.logged_in ==> r@ == "로그인 필요"@,
{
    if state.logged_in {
        state.username.clone()
    } else {
        "로그인 필요".to_owned()
    }
}

/// What a tray menu item does.
#[derive(Clone, Copy, PartialEq, Eq, Debug, Structural)]
pub enum MenuAction {
    /// Opens the sign-in page.
    SignIn,
    OpenFolder,
    ToggleAutostart,
    InstallUpdate,
    Quit,
    /// Items that do nothing (the title, separators).
    Ignore,
}

pub open spec fn menu_action_spec(id: Seq<char>) -> MenuAction {
    if id == "user"@ {
        MenuAction::SignIn
    } else if id == "open_folder"@ {
        MenuAction::OpenFolder
    } else if id == "autostart"@ {
        MenuAction::ToggleAutostart
    } else if id == "update"@ {
        MenuAction::InstallUpdate
    } else if id == "quit"@ {
        MenuAction::Quit
    } else {
        MenuAction::Ignore
    }
}

/// The action of the menu item with the given id.
pub fn menu_action(id: &str) -> (r: MenuAction)
    ensures
        r == menu_action_spec(id@),
{
    let c = chars_of(id);
    if chars_eq(&c, &chars_of("user")) {
        MenuAction::SignIn
    } else if chars_eq(&c, &chars_of("open_folder")) {
        MenuAction::OpenFolder
    } else if chars_eq(&c, &chars_of("autostart")) {
        MenuAction::ToggleAutostart
    } else if chars_eq(&c, &chars_of("update")) {
        MenuAction::InstallUpdate
    } else if chars_eq(&c, &chars_of("quit")) {
        MenuAction::Quit
    } else {
        MenuAction::Ignore
    }
}

/// The radius of the badge: a quarter of the icon's shorter side.
pub open spec fn badge_radius(w: u32, h: u32) -> int {
    (if w <= h {
        w
    } else {
        h
    }) as int / 4
}

/// Whether the pixel at column `x`, row `y` lies in the badge: the disc of that radius
/// touching the icon's bottom-right corner.
pub open spec fn in_badge(w: u32, h: u32, x: int, y: int) -> bool {
    let r = badge_radius(w, h);
    let cx = w - r - 1;
    let cy = h - r - 1;
    (x - cx) * (x - cx) + (y - cy) * (y - cy) <= r * r
}

/// The badge's RGBA colour: red for a mandatory update, orange otherwise.
pub open spec fn badge_color(mandatory: bool) -> Seq<u8> {
    if mandatory {
        seq![220u8, 38u8, 38u8, 255u8]
    } else {
        seq![245u8, 158u8, 11u8, 255u8]
    }
}

/// The expected byte at offset `k` of pixel `q` after drawing.
pub open spec fn badge_byte(old: Seq<u8>, w: u32, h: u32, mandatory: bool, q: int, k: int) -> u8 {
    if in_badge(w, h, q % (w as int), q / (w as int)) {
        badge_color(mandatory)[k]
    } else {
        old[4 * q + k]
    }
}

proof fn lemma_pixel_index(w: int, h: int, x: int, y: int)
    requires
        0 <= x < w,
        0 <= y < h,
    ensures
        0 <= y * w + x < w * h,
        (y * w + x) % w == x,
        (y * w + x) / w == y,
{
    assert(y * w + x < w * h) by (nonlinear_arith)
        requires
            0 <= x < w,
            0 <= y < h,
    ;
    assert(0 <= y * w) by (nonlinear_arith)
        requires
            0 <= y,
            0 <= w,
    ;
    vstd::arithmetic::div_mod::lemma_fundamental_div_mod_converse(y * w + x, w, y, x);
}

proof fn lemma_square_bound(d: int, m: int)
    requires
        -m <= d <= m,
    ensures
        d * d <= m * m,
{
    assert(d * d <= m * m) by (nonlinear_arith)
        requires
            -m <= d <= m,
    ;
}

/// The column of the badge's centre.
pub open spec fn badge_center_x(w: u32, h: u32) -> int {
    w - badge_radius(w, h) - 1
}

/// The row of the badge's centre.
pub open spec fn badge_center_y(w: u32, h: u32) -> int {
    h - badge_radius(w, h) - 1
}

/// Whether the arithmetic of drawing the badge stays in range: the squared distance from the
/// top-left pixel to the centre fits in `i32`, and the byte offset of the badge's lowest pixel,
/// the one below its centre on the last row, fits in `u32`. An icon with no pixels draws
/// nothing.
pub open spec fn badge_fits(w: u32, h: u32) -> bool {
    let cx = badge_center_x(w, h);
    let cy = badge_center_y(w, h);
    w > 0 && h > 0 ==> cx * cx + cy * cy <= i32::MAX && 4 * ((h - 1) * w + cx) <= u32::MAX
}

/// Paints the update badge onto an RGBA icon of `w` by `h` pixels, in place: every pixel in
/// the badge takes the badge colour, every other pixel keeps its bytes.
pub fn draw_badge(rgba: &mut Vec<u8>, w: u32, h: u32, mandatory: bool)
    requires
        old(rgba)@.len() == 4 * (w as int) * (h as int),
        badge_fits(w, h),
    ensures
        final(rgba)@.len() == old(rgba)@.len(),
        forall|q: int, k: int|
            0 <= q < (w as int) * (h as int) && 0 <= k < 4 ==> #[trigger] final(rgba)@[4 * q + k]
                == badge_byte(old(rgba)@, w, h, mandatory, q, k),
{
    if w == 0 || h == 0 {
        assert((w as int) * (h as int) == 0) by (nonlinear_arith)
            requires
                w == 0 || h == 0,
        ;
        return;
    }
    let ghost orig = rgba@;
    let ghost wi = w as int;
    let ghost hi = h as int;
    let side: u32 = if w <= h {
        w
    } else {
        h
    };
    let ghost ri = badge_radius(w, h);
    let ghost cxi = badge_center_x(w, h);
    let ghost cyi = badge_center_y(w, h);
    proof {
        assert(4 * wi * hi == 4 * (wi * hi)) by (nonlinear_arith);
        assert(0 <= ri && 4 * ri <= side && side <= wi && side <= hi);
        assert(ri <= cxi && ri <= cyi);
        assert(cxi <= 46341 && cyi <= 46341) by (nonlinear_arith)
            requires
                cxi * cxi + cyi * cyi <= i32::MAX,
                0 <= cxi,
                0 <= cyi,
        ;
    }
    let r: i32 = (side / 4) as i32;
    let cx: i32 = w as i32 - r - 1;
    let cy: i32 = h as i32 - r - 1;
    let (cr, cg, cb): (u8, u8, u8) = if mandatory {
        (220u8, 38u8, 38u8)
    } else {
        (245u8, 158u8, 11u8)
    };
    let ghost color = seq![cr, cg, cb, 255u8];
    assert(color =~= badge_color(mandatory));
    let w_i: i32 = w as i32;
    let h_i: i32 = h as i32;
    let mut y: i32 = 0;
    while y < h_i
        invariant
            0 <= y <= h_i,
            h_i == hi,
            w_i == wi,
            wi == w,
            hi == h,
            0 < wi,
            0 < hi,
            r == ri,
            ri == badge_radius(w, h),
            cx == cxi,
            cy == cyi,
            cxi == wi - ri - 1,
            cyi == hi - ri - 1,
            0 <= ri <= cxi,
            ri <= cyi,
            cxi * cxi + cyi * cyi <= i32::MAX,
            4 * ((hi - 1) * wi + cxi) <= u32::MAX,
            color == badge_color(mandatory),
            color == seq![cr, cg, cb, 255u8],
            rgba@.len() == orig.len(),
            orig.len() == 4 * (wi * hi),
            forall|q: int, k: int|
                0 <= q < y * wi && 0 <= k < 4 ==> #[trigger] rgba@[4 * q + k] == badge_byte(
                    orig,
                    w,
                    h,
                    mandatory,
                    q,
                    k,
                ),
            forall|q: int, k: int|
                y * wi <= q < wi * hi && 0 <= k < 4 ==> #[trigger] rgba@[4 * q + k] == orig[4 * q
                    + k],
        decreases h_i - y,
    {
        let mut x: i32 = 0;
        while x < w_i
            invariant
                0 <= x <= w_i,
                0 <= y < h_i,
                h_i == hi,
                w_i == wi,
                wi == w,
                hi == h,
                0 < wi,
                r == ri,
                ri == badge_radius(w, h),
                cx == cxi,
                cy == cyi,
                cxi == wi - ri - 1,
                cyi == hi - ri - 1,
                0 <= ri <= cxi,
                ri <= cyi,
                cxi * cxi + cyi * cyi <= i32::MAX,
                4 * ((hi - 1) * wi + cxi) <= u32::MAX,
                color == badge_color(mandatory),
                color == seq![cr, cg, cb, 255u8],
                rgba@.len() == orig.len(),
                orig.len() == 4 * (wi * hi),
                forall|q: int, k: int|
                    0 <= q < y * wi + x && 0 <= k < 4 ==> #[trigger] rgba@[4 * q + k] == badge_byte(
                        orig,
                        w,
                        h,
                        mandatory,
                        q,
                        k,
                    ),
                forall|q: int, k: int|
                    y * wi + x <= q < wi * hi && 0 <= k < 4 ==> #[trigger] rgba@[4 * q + k]
                        == orig[4 * q + k],
            decreases w_i - x,
        {
            let ghost p = y * wi + x;
            proof {
                lemma_pixel_index(wi, hi, x as int, y as int);
                lemma_square_bound((x - cx) as int, cxi);
                lemma_square_bound((y - cy) as int, cyi);
                lemma_square_bound(r as int, cxi);
            }
            let dx: i32 = x - cx;
            let dy: i32 = y - cy;
            assert(cyi * cyi >= 0 && cxi * cxi >= 0 && dx * dx >= 0 && dy * dy >= 0 && r * r >= 0)
                by (nonlinear_arith);
            let inside = dx * dx + dy * dy <= r * r;
            assert(inside == in_badge(w, h, p % wi, p / wi));
            if inside {
                proof {
                    lemma_badge_pixel_offset(wi, hi, cxi, ri, x as int, y as int);
                }
                let i: usize = (((y as u32) * w + (x as u32)) * 4) as usize;
                assert(i == 4 * p);
                rgba.set(i, cr);
                rgba.set(i + 1, cg);
                rgba.set(i + 2, cb);
                rgba.set(i + 3, 255u8);
            }
            proof {
                assert forall|q: int, k: int|
                    0 <= q < p + 1 && 0 <= k < 4 implies #[trigger] rgba@[4 * q + k] == badge_byte(
                    orig,
                    w,
                    h,
                    mandatory,
                    q,
                    k,
                ) by {
                    if q == p {
                        if !inside {
                            assert(rgba@[4 * q + k] == orig[4 * q + k]);
                        }
                    }
                }
            }
            x = x + 1;
        }
        proof {
            assert((y + 1) * wi == y * wi + wi) by (nonlinear_arith);
        }
        y = y + 1;
    }
    proof {
        assert(y * wi == wi * hi) by (nonlinear_arith)
            requires
                y == hi,
        ;
    }
}

/// A pixel of the badge lies no further into the buffer than the one below the centre on the
/// last row: on that row the disc holds only its centre column.
proof fn lemma_badge_pixel_offset(w: int, h: int, cx: int, r: int, x: int, y: int)
    requires
        0 <= x < w,
        0 <= y < h,
        0 <= cx,
        h - r - 1 >= 0,
        (x - cx) * (x - cx) + (y - (h - r - 1)) * (y - (h - r - 1)) <= r * r,
    ensures
        0 <= y * w + x <= (h - 1) * w + cx,
{
    assert(0 <= y * w) by (nonlinear_arith)
        requires
            0 <= y,
            0 <= w,
    ;
    if y == h - 1 {
        assert((x - cx) * (x - cx) <= 0);
        assert(x == cx) by (nonlinear_arith)
            requires
                (x - cx) * (x - cx) <= 0,
        ;
    } else {
        assert((y + 1) * w <= (h - 1) * w) by (nonlinear_arith)
            requires
                y + 1 <= h - 1,
                0 <= w,
        ;
        assert((y + 1) * w == y * w + w) by (nonlinear_arith);
    }
}

} // verus!
