//! The two-plane 128x64 framebuffer.
use vstd::prelude::*;

verus! {

/// The column of the pixel at position `p` of a plane.
pub open spec fn col_of(p: int) -> int {
    p % 128
}

/// The row of the pixel at position `p` of a plane.
pub open spec fn row_of(p: int) -> int {
    p / 128
}

/// Whether the plane-select mask addresses plane `k` (1 or 2).
pub open spec fn is_selected(mask: u8, k: int) -> bool {
    (mask == 1 && k == 1) || (mask == 2 && k == 2) || mask == 3
}

/// The planes that a plane-select mask addresses, in drawing order.
pub open spec fn selected_planes(mask: u8) -> Seq<u8> {
    if mask == 1 {
        seq![1u8]
    } else if mask == 2 {
        seq![2u8]
    } else if mask == 3 {
        seq![1u8, 2u8]
    } else {
        seq![]
    }
}

/// A direction in which the picture of a plane can be moved.
#[derive(PartialEq, Eq, Structural, Copy, Clone, Debug)]
pub enum ScrollDirection {
    Up,
    Down,
    Left,
    Right,
}

/// A plane with every pixel off.
pub open spec fn blank_plane() -> Seq<bool> {
    Seq::new(8192, |p: int| false)
}

/// The plane `plane` moved by `n` pixels in direction `dir`; what is moved in
/// from outside the framebuffer is off.
pub open spec fn scrolled(plane: Seq<bool>, dir: ScrollDirection, n: int) -> Seq<bool> {
    Seq::new(
        8192,
        |p: int|
            match dir {
                ScrollDirection::Up => if p + n * 128 < 8192 { plane[p + n * 128] } else { false },
                ScrollDirection::Down => if p - n * 128 >= 0 { plane[p - n * 128] } else { false },
                ScrollDirection::Left => if col_of(p) + n < 128 { plane[p + n] } else { false },
                ScrollDirection::Right => if col_of(p) - n >= 0 { plane[p - n] } else { false },
            },
    )
}

/// Two bit-planes of 128x64 pixels and the mask of the planes that drawing,
/// clearing and scrolling address (bit 0: plane 1, bit 1: plane 2).
#[derive(Copy, Clone)]
pub struct Display {
    pub plane_1: [bool; 8192],
    pub plane_2: [bool; 8192],
    pub selected_plane: u8,
}

/// The mathematical value of a `Display`.
#[verifier::ext_equal]
pub struct DisplayModel {
    pub plane_1: Seq<bool>,
    pub plane_2: Seq<bool>,
    pub selected_plane: u8,
}

impl View for Display {
    type V = DisplayModel;

    open spec fn view(&self) -> DisplayModel {
        DisplayModel { plane_1: self.plane_1@, plane_2: self.plane_2@, selected_plane: self.selected_plane }
    }
}

/// Every selected plane moved by `n` pixels in direction `dir`.
pub open spec fn scrolled_display(d: DisplayModel, dir: ScrollDirection, n: int) -> DisplayModel {
    DisplayModel {
        plane_1: if is_selected(d.selected_plane, 1) { scrolled(d.plane_1, dir, n) } else { d.plane_1 },
        plane_2: if is_selected(d.selected_plane, 2) { scrolled(d.plane_2, dir, n) } else { d.plane_2 },
        selected_plane: d.selected_plane,
    }
}

/// Every selected plane cleared.
pub open spec fn cleared_display(d: DisplayModel) -> DisplayModel {
    DisplayModel {
        plane_1: if is_selected(d.selected_plane, 1) { blank_plane() } else { d.plane_1 },
        plane_2: if is_selected(d.selected_plane, 2) { blank_plane() } else { d.plane_2 },
        selected_plane: d.selected_plane,
    }
}

/// Moves the picture of one plane by `n` pixels.
pub fn scroll_plane(plane: &mut [bool; 8192], dir: ScrollDirection, n: usize)
    ensures
        final(plane)@ == scrolled(old(plane)@, dir, n as int),
{
    let ghost orig = plane@;
    match dir {
        ScrollDirection::Up => {
            let rows: usize = if n < 64 { n } else { 64 };
            let shift: usize = rows * 128;
            assert(n >= 64 ==> n * 128 >= 8192) by (nonlinear_arith);
            let mut p: usize = 0;
            while p < 8192
                invariant
                    0 <= p <= 8192,
                    shift == rows * 128,
                    rows <= 64,
                    rows == if n < 64 { n } else { 64 },
                    n >= 64 ==> n * 128 >= 8192,
                    forall|q: int| 0 <= q < p ==> plane@[q] == scrolled(orig, dir, n as int)[q],
                    forall|q: int| p <= q < 8192 ==> plane@[q] == orig[q],
                    dir == ScrollDirection::Up,
                decreases 8192 - p,
            {
                let v = if p + shift < 8192 { plane[p + shift] } else { false };
                plane[p] = v;
                p = p + 1;
            }
        },
        ScrollDirection::Down => {
            let rows: usize = if n < 64 { n } else { 64 };
            let shift: usize = rows * 128;
            assert(n >= 64 ==> n * 128 >= 8192) by (nonlinear_arith);
            let mut p: usize = 8192;
            while p > 0
                invariant
                    0 <= p <= 8192,
                    shift == rows * 128,
                    rows <= 64,
                    rows == if n < 64 { n } else { 64 },
                    n >= 64 ==> n * 128 >= 8192,
                    forall|q: int| p <= q < 8192 ==> plane@[q] == scrolled(orig, dir, n as int)[q],
                    forall|q: int| 0 <= q < p ==> plane@[q] == orig[q],
                    dir == ScrollDirection::Down,
                decreases p,
            {
                p = p - 1;
                let v = if p >= shift { plane[p - shift] } else { false };
                plane[p] = v;
            }
        },
        ScrollDirection::Left => {
            let mut p: usize = 0;
            while p < 8192
                invariant
                    0 <= p <= 8192,
                    forall|q: int| 0 <= q < p ==> plane@[q] == scrolled(orig, dir, n as int)[q],
                    forall|q: int| p <= q < 8192 ==> plane@[q] == orig[q],
                    dir == ScrollDirection::Left,
                decreases 8192 - p,
            {
                let col = p % 128;
                let v = if n < 128 - col { plane[p + n] } else { false };
                plane[p] = v;
                p = p + 1;
            }
        },
        ScrollDirection::Right => {
            let mut p: usize = 8192;
            while p > 0
                invariant
                    0 <= p <= 8192,
                    forall|q: int| p <= q < 8192 ==> plane@[q] == scrolled(orig, dir, n as int)[q],
                    forall|q: int| 0 <= q < p ==> plane@[q] == orig[q],
                    dir == ScrollDirection::Right,
                decreases p,
            {
                p = p - 1;
                let col = p % 128;
                let v = if n <= col { plane[p - n] } else { false };
                plane[p] = v;
            }
        },
    }
    assert(plane@ =~= scrolled(orig, dir, n as int));
}


/// Where a sprite is drawn and how: the top-left target pixel (`x0`, `y0`), the
/// number of sprite rows (`rows`), whether rows are 16 bits wide (`wide`) or 8,
/// the size of the square block each sprite bit becomes (`scale`), and whether
/// pixels past the border wrap around (`wrap`) or are dropped.
#[derive(PartialEq, Eq, Structural, Copy, Clone, Debug)]
pub struct SpritePlacement {
    pub x0: usize,
    pub y0: usize,
    pub rows: usize,
    pub wide: bool,
    pub scale: usize,
    pub wrap: bool,
}

/// A placement that the framebuffer can take.
pub open spec fn placement_ok(s: SpritePlacement) -> bool {
    s.x0 < 128 && s.y0 < 64 && s.rows <= 16 && (s.scale == 1 || s.scale == 2)
}

/// The width of the drawn sprite in target pixels.
pub open spec fn sprite_width(s: SpritePlacement) -> int {
    (if s.wide { 16int } else { 8int }) * s.scale
}

/// The height of the drawn sprite in target pixels.
pub open spec fn sprite_height(s: SpritePlacement) -> int {
    s.rows * s.scale
}

/// The offset within the drawn sprite of target pixel `p`, if the sprite covers it.
pub open spec fn sprite_offset(s: SpritePlacement, p: int) -> Option<(int, int)> {
    let dx = if s.wrap { (col_of(p) - s.x0) % 128 } else { col_of(p) - s.x0 };
    let dy = if s.wrap { (row_of(p) - s.y0) % 64 } else { row_of(p) - s.y0 };
    if 0 <= dx < sprite_width(s) && 0 <= dy < sprite_height(s) {
        Some((dx, dy))
    } else {
        None
    }
}

/// Bit `k` of byte `b`, counting from the least significant bit.
pub open spec fn bit_of(b: u8, k: u8) -> bool {
    (b >> k) & 1u8 == 1u8
}

/// Whether bit (`sx`, `sy`) of the sprite whose bytes start at `base` is set;
/// addresses wrap around the 64 KiB memory.
pub open spec fn sprite_bit(mem: Seq<u8>, base: int, sx: int, sy: int, wide: bool) -> bool {
    if wide {
        bit_of(mem[(base + 2 * sy + sx / 8) % 65536], (7 - sx % 8) as u8)
    } else {
        bit_of(mem[(base + sy) % 65536], (7 - sx) as u8)
    }
}

/// Whether the sprite turns on (flips) target pixel `p`.
pub open spec fn flips(mem: Seq<u8>, base: int, s: SpritePlacement, p: int) -> bool {
    match sprite_offset(s, p) {
        Some((dx, dy)) => sprite_bit(mem, base, dx / s.scale as int, dy / s.scale as int, s.wide),
        None => false,
    }
}

/// The plane after the sprite is XORed onto it.
pub open spec fn drawn_plane(plane: Seq<bool>, mem: Seq<u8>, base: int, s: SpritePlacement) -> Seq<bool> {
    Seq::new(8192, |p: int| plane[p] != flips(mem, base, s, p))
}

/// Whether the sprite turns off pixel `p` of the plane.
pub open spec fn turns_off(plane: Seq<bool>, mem: Seq<u8>, base: int, s: SpritePlacement, p: int) -> bool {
    plane[p] && flips(mem, base, s, p)
}

/// Whether drawing the sprite turns off at least one pixel of the plane.
pub open spec fn collides(plane: Seq<bool>, mem: Seq<u8>, base: int, s: SpritePlacement) -> bool {
    exists|p: int| 0 <= p < 8192 && #[trigger] turns_off(plane, mem, base, s, p)
}

/// The bytes that one plane's share of a sprite takes.
pub open spec fn plane_stride(s: SpritePlacement) -> int {
    if s.wide { 32 } else { s.rows as int }
}

/// The picture after a draw.
pub open spec fn drawn_display(d: DisplayModel, mem: Seq<u8>, addr: int, s: SpritePlacement) -> DisplayModel {
    DisplayModel {
        plane_1: drawn_plane_1(d, mem, addr, s),
        plane_2: drawn_plane_2(d, mem, addr, s),
        selected_plane: d.selected_plane,
    }
}

/// Plane 1 after a draw.
pub open spec fn drawn_plane_1(d: DisplayModel, mem: Seq<u8>, addr: int, s: SpritePlacement) -> Seq<bool> {
    if is_selected(d.selected_plane, 1) {
        drawn_plane(d.plane_1, mem, addr, s)
    } else {
        d.plane_1
    }
}

/// The address of plane 2's share of a sprite at `addr`: it follows plane 1's
/// share when both planes are selected.
pub open spec fn plane_2_base(mask: u8, addr: int, s: SpritePlacement) -> int {
    if mask == 3 { addr + plane_stride(s) } else { addr }
}

/// Plane 2 after a draw.
pub open spec fn drawn_plane_2(d: DisplayModel, mem: Seq<u8>, addr: int, s: SpritePlacement) -> Seq<bool> {
    if is_selected(d.selected_plane, 2) {
        drawn_plane(d.plane_2, mem, plane_2_base(d.selected_plane, addr, s), s)
    } else {
        d.plane_2
    }
}

/// Whether a draw turns off a pixel of a selected plane.
pub open spec fn draw_collides(d: DisplayModel, mem: Seq<u8>, addr: int, s: SpritePlacement) -> bool {
    (is_selected(d.selected_plane, 1) && collides(d.plane_1, mem, addr, s))
    || (is_selected(d.selected_plane, 2) && collides(
        d.plane_2,
        mem,
        plane_2_base(d.selected_plane, addr, s),
        s,
    ))
}

proof fn lemma_position(ty: int, tx: int)
    requires
        0 <= tx < 128,
        0 <= ty,
    ensures
        row_of(ty * 128 + tx) == ty,
        col_of(ty * 128 + tx) == tx,
{
    vstd::arithmetic::div_mod::lemma_fundamental_div_mod_converse(ty * 128 + tx, 128, ty, tx);
}

/// Whether the sprite flips the target pixel in column `tx` of row `ty`.
fn flips_at(mem: &[u8; 65536], base: usize, s: SpritePlacement, tx: usize, ty: usize) -> (on: bool)
    requires
        placement_ok(s),
        base < 0x20000,
        tx < 128,
        ty < 64,
    ensures
        on == flips(mem@, base as int, s, ty * 128 + tx),
{
    proof {
        lemma_position(ty as int, tx as int);
    }
    let cols: usize = if s.wide { 16 } else { 8 };
    let width: usize = if s.scale == 1 { cols } else { cols * 2 };
    let height: usize = if s.scale == 1 { s.rows } else { s.rows * 2 };
    assert(width == sprite_width(s) && height == sprite_height(s));
    let dy: usize = if s.wrap { (ty + 64 - s.y0) % 64 } else if ty >= s.y0 { ty - s.y0 } else { 64 };
    let dx: usize = if s.wrap { (tx + 128 - s.x0) % 128 } else if tx >= s.x0 { tx - s.x0 } else { 128 };
    proof {
        let p = ty * 128 + tx;
        if s.wrap {
            vstd::arithmetic::div_mod::lemma_mod_add_multiples_vanish(ty - s.y0, 64);
            vstd::arithmetic::div_mod::lemma_mod_add_multiples_vanish(tx - s.x0, 128);
            assert(dy == (row_of(p) - s.y0) % 64);
            assert(dx == (col_of(p) - s.x0) % 128);
        }
        if dx < width && dy < height {
            assert(sprite_offset(s, p) == Some((dx as int, dy as int)));
        } else {
            assert(sprite_offset(s, p) is None);
        }
    }
    if dx < width && dy < height {
        let sx = dx / s.scale;
        let sy = dy / s.scale;
        assert(sx < cols && sy < s.rows) by {
            if s.scale == 2 {
                assert(dx / 2 < cols);
                assert(dy / 2 < s.rows);
            }
        }
        if s.wide {
            let a: usize = (base + 2 * sy + sx / 8) % 65536;
            let k: u8 = (7 - sx % 8) as u8;
            (mem[a] >> k) & 1 == 1
        } else {
            let a: usize = (base + sy) % 65536;
            let k: u8 = (7 - sx) as u8;
            (mem[a] >> k) & 1 == 1
        }
    } else {
        false
    }
}

/// XORs the sprite onto row `ty` of a plane and tells whether a pixel of that row was turned off.
fn draw_row(plane: &mut [bool; 8192], mem: &[u8; 65536], base: usize, s: SpritePlacement, ty: usize) -> (hit: bool)
    requires
        placement_ok(s),
        base < 0x20000,
        ty < 64,
    ensures
        forall|q: int| 0 <= q < 8192 ==> final(plane)@[q] == if ty * 128 <= q < ty * 128 + 128 {
            old(plane)@[q] != flips(mem@, base as int, s, q)
        } else {
            old(plane)@[q]
        },
        hit == exists|q: int| ty * 128 <= q < ty * 128 + 128 && #[trigger] turns_off(old(plane)@, mem@, base as int, s, q),
{
    let ghost orig = plane@;
    let height: usize = if s.scale == 1 { s.rows } else { s.rows * 2 };
    assert(height == sprite_height(s));
    let dy: usize = if s.wrap { (ty + 64 - s.y0) % 64 } else if ty >= s.y0 { ty - s.y0 } else { 64 };
    if dy >= height {
        assert forall|q: int| ty * 128 <= q < ty * 128 + 128 implies !flips(mem@, base as int, s, q) by {
            lemma_position(ty as int, q - ty * 128);
            if s.wrap {
                vstd::arithmetic::div_mod::lemma_mod_add_multiples_vanish(ty - s.y0, 64);
            }
        }
        return false;
    }
    let mut hit = false;
    let mut tx: usize = 0;
    while tx < 128
        invariant
            placement_ok(s),
            base < 0x20000,
            ty < 64,
            0 <= tx <= 128,
            forall|q: int| 0 <= q < 8192 ==> plane@[q] == if ty * 128 <= q < ty * 128 + tx {
                orig[q] != flips(mem@, base as int, s, q)
            } else {
                orig[q]
            },
            hit <==> exists|q: int| ty * 128 <= q < ty * 128 + tx && #[trigger] turns_off(orig, mem@, base as int, s, q),
        decreases 128 - tx,
    {
        let p: usize = ty * 128 + tx;
        let on = flips_at(mem, base, s, tx, ty);
        assert(plane@[p as int] == orig[p as int]);
        assert(turns_off(orig, mem@, base as int, s, p as int) == (on && orig[p as int]));
        if on {
            if plane[p] {
                hit = true;
            }
            plane[p] = !plane[p];
        }
        tx = tx + 1;
    }
    hit
}

/// XORs a sprite onto one plane and tells whether a pixel was turned off.
pub fn draw_on_plane(plane: &mut [bool; 8192], mem: &[u8; 65536], base: usize, s: SpritePlacement) -> (collided: bool)
    requires
        placement_ok(s),
        base < 0x20000,
    ensures
        final(plane)@ == drawn_plane(old(plane)@, mem@, base as int, s),
        collided == collides(old(plane)@, mem@, base as int, s),
{
    let ghost orig = plane@;
    let mut collided = false;
    let mut ty: usize = 0;
    while ty < 64
        invariant
            placement_ok(s),
            base < 0x20000,
            0 <= ty <= 64,
            forall|q: int| 0 <= q < 8192 ==> plane@[q] == if q < ty * 128 {
                orig[q] != flips(mem@, base as int, s, q)
            } else {
                orig[q]
            },
            collided <==> exists|q: int| 0 <= q < ty * 128 && #[trigger] turns_off(orig, mem@, base as int, s, q),
        decreases 64 - ty,
    {
        let ghost before = plane@;
        let hit = draw_row(plane, mem, base, s, ty);
        proof {
            assert forall|q: int| ty * 128 <= q < ty * 128 + 128 implies turns_off(before, mem@, base as int, s, q) == turns_off(orig, mem@, base as int, s, q) by {
                assert(before[q] == orig[q]);
            }
            if hit {
                let q = choose|q: int| ty * 128 <= q < ty * 128 + 128 && #[trigger] turns_off(before, mem@, base as int, s, q);
                assert(turns_off(orig, mem@, base as int, s, q));
            }
        }
        collided = collided || hit;
        ty = ty + 1;
    }
    assert(plane@ =~= drawn_plane(orig, mem@, base as int, s));
    collided
}

impl Display {
    /// A blank display with plane 1 selected.
    pub fn new() -> (r: Display)
        ensures
            r@ == (DisplayModel { plane_1: blank_plane(), plane_2: blank_plane(), selected_plane: 1 }),
    {
        let r = Display { plane_1: [false; 8192], plane_2: [false; 8192], selected_plane: 1 };
        assert(r@ =~= (DisplayModel { plane_1: blank_plane(), plane_2: blank_plane(), selected_plane: 1 }));
        r
    }

    /// The planes (1, 2) that the plane-select mask addresses, in drawing order.
    pub fn get_selected_planes(&self) -> (r: Vec<u8>)
        ensures
            r@ == selected_planes(self.selected_plane),
    {
        let r = match self.selected_plane {
            1 => vec![1u8],
            2 => vec![2u8],
            3 => vec![1u8, 2u8],
            _ => Vec::new(),
        };
        assert(r@ =~= selected_planes(self.selected_plane));
        r
    }

    /// Addresses planes by mask (bit 0: plane 1, bit 1: plane 2).
    pub fn select_plane(&mut self, mask: u8)
        ensures
            final(self)@ == (DisplayModel { selected_plane: mask, ..old(self)@ }),
    {
        self.selected_plane = mask;
    }

    /// Moves the picture of every selected plane by `n` pixels; other planes are untouched.
    pub fn execute_scroll(&mut self, dir: ScrollDirection, n: usize)
        ensures
            final(self)@ == scrolled_display(old(self)@, dir, n as int),
    {
        if self.selected_plane == 1 || self.selected_plane == 3 {
            scroll_plane(&mut self.plane_1, dir, n);
        }
        if self.selected_plane == 2 || self.selected_plane == 3 {
            scroll_plane(&mut self.plane_2, dir, n);
        }
    }

    /// Turns off every pixel of every selected plane; other planes are untouched.
    pub fn clear_selected(&mut self)
        ensures
            final(self)@ == cleared_display(old(self)@),
    {
        if self.selected_plane == 1 || self.selected_plane == 3 {
            self.plane_1 = [false; 8192];
            assert(self.plane_1@ =~= blank_plane());
        }
        if self.selected_plane == 2 || self.selected_plane == 3 {
            self.plane_2 = [false; 8192];
            assert(self.plane_2@ =~= blank_plane());
        }
    }

    /// XORs a sprite whose bytes start at `addr` onto every selected plane
    /// (plane 1's share first, then plane 2's) and tells whether any pixel of a
    /// selected plane was turned off.
    pub fn draw_sprite(&mut self, mem: &[u8; 65536], addr: u16, s: SpritePlacement) -> (collided: bool)
        requires
            placement_ok(s),
        ensures
            final(self)@ == drawn_display(old(self)@, mem@, addr as int, s),
            collided == draw_collides(old(self)@, mem@, addr as int, s),
    {
        let mask = self.selected_plane;
        let stride: usize = if s.wide { 32 } else { s.rows };
        let mut collided = false;
        if mask == 1 || mask == 3 {
            collided = draw_on_plane(&mut self.plane_1, mem, addr as usize, s);
        }
        if mask == 2 || mask == 3 {
            let base: usize = if mask == 3 { addr as usize + stride } else { addr as usize };
            let c = draw_on_plane(&mut self.plane_2, mem, base, s);
            collided = collided || c;
        }
        collided
    }
}

/// A sprite turns off a pixel of a plane exactly when the pixel is on before
/// the draw and off after it.
pub proof fn lemma_collides_iff_pixel_off(plane: Seq<bool>, mem: Seq<u8>, base: int, s: SpritePlacement)
    requires
        plane.len() == 8192,
    ensures
        collides(plane, mem, base, s) <==> exists|q: int|
            0 <= q < 8192 && plane[q] && !#[trigger] drawn_plane(plane, mem, base, s)[q],
{
    let d = drawn_plane(plane, mem, base, s);
    if collides(plane, mem, base, s) {
        let q = choose|q: int| 0 <= q < 8192 && #[trigger] turns_off(plane, mem, base, s, q);
        assert(plane[q] && !d[q]);
    }
    if exists|q: int| 0 <= q < 8192 && plane[q] && !#[trigger] d[q] {
        let q = choose|q: int| 0 <= q < 8192 && plane[q] && !#[trigger] d[q];
        assert(turns_off(plane, mem, base, s, q));
    }
}

/// Scrolling a plane right by `n` and then left by `n` keeps every pixel that
/// lies more than `n` columns from the right border and clears the others:
/// the rightmost `n` columns are lost, and the result is again a full plane.
pub proof fn lemma_scroll_right_then_left(plane: Seq<bool>, n: int)
    requires
        plane.len() == 8192,
        0 <= n,
    ensures
        scrolled(scrolled(plane, ScrollDirection::Right, n), ScrollDirection::Left, n).len() == 8192,
        forall|q: int| 0 <= q < 8192 ==>
            #[trigger] scrolled(scrolled(plane, ScrollDirection::Right, n), ScrollDirection::Left, n)[q]
                == (col_of(q) + n < 128 && plane[q]),
{
    let r1 = scrolled(plane, ScrollDirection::Right, n);
    let r2 = scrolled(r1, ScrollDirection::Left, n);
    assert forall|q: int| 0 <= q < 8192 implies #[trigger] r2[q] == (col_of(q) + n < 128 && plane[q]) by {
        if col_of(q) + n < 128 {
            vstd::arithmetic::div_mod::lemma_fundamental_div_mod(q, 128);
            lemma_position(row_of(q), col_of(q) + n);
            assert(q + n == row_of(q) * 128 + (col_of(q) + n));
            assert(col_of(q + n) == col_of(q) + n);
            assert(r1[q + n] == plane[q]);
        }
    }
}

} // verus!
