use vstd::prelude::*;
use vstd::arithmetic::div_mod::{lemma_fundamental_div_mod, lemma_fundamental_div_mod_converse};
use crate::context::{Context, ContextView, SPRITE_WIDTH, MAX_SPRITE_ROWS};
use crate::mmu::{wrap, Mmu};

verus! {

/// Bit `col` of a sprite row, counted from the most significant bit.
pub open spec fn bit_of(byte: u8, col: int) -> bool {
    (byte >> ((7 - col) as u8)) & 1u8 == 1u8
}

/// The `n` sprite rows that start at memory address `i`.
pub open spec fn sprite_rows(mem: Seq<u8>, i: int, n: int) -> Seq<u8> {
    Seq::new(n as nat, |r: int| mem[wrap(i + r)])
}

/// The sprite column that dot `k` falls in, for a sprite whose left edge
/// is at `x` on a display `w` dots wide, wrapping round.
pub open spec fn sprite_col(w: int, x: int, k: int) -> int {
    (k % w - x) % w
}

/// The sprite row that dot `k` falls in, for a sprite whose top edge is at
/// `y` on a display `w` by `h` dots, wrapping round.
pub open spec fn sprite_row(w: int, h: int, y: int, k: int) -> int {
    (k / w - y) % h
}

/// Whether the sprite made of `rows`, drawn at `(x, y)`, has a set bit on
/// dot `k`.
pub open spec fn lit_by(w: int, h: int, x: int, y: int, rows: Seq<u8>, k: int) -> bool {
    let r = sprite_row(w, h, y, k);
    let c = sprite_col(w, x, k);
    r < rows.len() && c < SPRITE_WIDTH && bit_of(rows[r], c)
}

/// The display after XOR-ing the sprite made of `rows` onto it at `(x, y)`.
pub open spec fn drawn(screen: Seq<bool>, w: int, h: int, x: int, y: int, rows: Seq<u8>) -> Seq<bool> {
    Seq::new(screen.len(), |k: int| screen[k] != lit_by(w, h, x, y, rows, k))
}

/// Whether drawing the sprite turns off a dot that was lit.
pub open spec fn collides(screen: Seq<bool>, w: int, h: int, x: int, y: int, rows: Seq<u8>) -> bool {
    exists|k: int| 0 <= k < screen.len() && #[trigger] screen[k] && lit_by(w, h, x, y, rows, k)
}

/// The context after the draw instruction with coordinate registers `rx`
/// and `ry` and `n` rows: the sprite at the index register XOR-ed onto the
/// display, register 15 set to 1 on a collision and to 0 otherwise.
#[verifier::opaque]
pub open spec fn draw_view(s: ContextView, mem: Seq<u8>, rx: int, ry: int, n: int) -> ContextView {
    let x = s.v[rx] as int;
    let y = s.v[ry] as int;
    let rows = sprite_rows(mem, s.i, n);
    ContextView {
        screen: drawn(s.screen, s.width, s.height, x, y, rows),
        v: s.v.update(15, if collides(s.screen, s.width, s.height, x, y, rows) { 1u8 } else { 0u8 }),
        ..s
    }
}

/// The dot that sprite row `r`, column `c` lands on is where `sprite_row`
/// and `sprite_col` place it.
proof fn lemma_dot_position(w: int, h: int, x: int, y: int, r: int, c: int)
    requires
        0 <= c < w,
        0 <= r < h,
        x >= 0,
        y >= 0,
    ensures
        0 <= ((y + r) % h) * w + (x + c) % w < w * h,
        sprite_col(w, x, ((y + r) % h) * w + (x + c) % w) == c,
        sprite_row(w, h, y, ((y + r) % h) * w + (x + c) % w) == r,
{
    let sx = (x + c) % w;
    let sy = (y + r) % h;
    let k = sy * w + sx;
    assert(0 <= sy * w + sx < w * h) by (nonlinear_arith)
        requires 0 <= sx < w, 0 <= sy < h;
    lemma_fundamental_div_mod_converse(k, w, sy, sx);
    lemma_fundamental_div_mod(x + c, w);
    let qx = (x + c) / w;
    assert(sx - x == (-qx) * w + c) by (nonlinear_arith)
        requires x + c == w * qx + sx;
    lemma_fundamental_div_mod_converse(sx - x, w, -qx, c);
    lemma_fundamental_div_mod(y + r, h);
    let qy = (y + r) / h;
    assert(sy - y == (-qy) * h + r) by (nonlinear_arith)
        requires y + r == h * qy + sy;
    lemma_fundamental_div_mod_converse(sy - y, h, -qy, r);
}

/// Each dot is the one that its own sprite row and column land on.
proof fn lemma_dot_inverse(w: int, h: int, x: int, y: int, k: int)
    requires
        w > 0,
        h > 0,
        0 <= k < w * h,
        x >= 0,
        y >= 0,
    ensures
        k == ((y + sprite_row(w, h, y, k)) % h) * w + (x + sprite_col(w, x, k)) % w,
{
    let sx = k % w;
    let sy = k / w;
    lemma_fundamental_div_mod(k, w);
    assert(0 <= sy < h) by (nonlinear_arith)
        requires k == w * sy + sx, 0 <= sx < w, 0 <= k < w * h, w > 0;
    let r = sprite_row(w, h, y, k);
    lemma_fundamental_div_mod(sy - y, h);
    let qy = (sy - y) / h;
    assert(y + r == (-qy) * h + sy) by (nonlinear_arith)
        requires sy - y == h * qy + r;
    lemma_fundamental_div_mod_converse(y + r, h, -qy, sy);
    let c = sprite_col(w, x, k);
    lemma_fundamental_div_mod(sx - x, w);
    let qx = (sx - x) / w;
    assert(x + c == (-qx) * w + sx) by (nonlinear_arith)
        requires sx - x == w * qx + c;
    lemma_fundamental_div_mod_converse(x + c, w, -qx, sx);
    assert(k == sy * w + sx) by (nonlinear_arith)
        requires k == w * sy + sx;
}

/// XOR-blits `n` rows of the sprite at the index register onto the display
/// at the coordinates held in registers `rx` and `ry`; register 15 reports
/// whether a lit dot was turned off.
pub fn draw_sprite(c: &mut Context, m: &mut Mmu, rx: usize, ry: usize, n: usize)
    requires
        old(c)@.wf(),
        rx < 16,
        ry < 16,
        n <= MAX_SPRITE_ROWS,
    ensures
        final(c)@ == draw_view(old(c)@, old(m)@, rx as int, ry as int, n as int),
        final(c)@.wf(),
        final(c)@.screen.len() == old(c)@.screen.len(),
        final(m)@ == old(m)@,
{
    let ghost s = c@;
    let ghost mem = m@;
    let x = c.v[rx] as usize;
    let y = c.v[ry] as usize;
    let w = c.screen_width;
    let h = c.screen_height;
    let len = c.screen.len();
    let ghost rows = sprite_rows(mem, s.i, n as int);
    let mut collision = false;
    let mut row: usize = 0;
    while row < n
        invariant
            s.wf(),
            c@ == (ContextView { screen: c@.screen, ..s }),
            m@ == mem,
            c.screen@.len() == s.screen.len(),
            len == s.screen.len(),
            rx < 16,
            ry < 16,
            w == s.width,
            h == s.height,
            x == s.v[rx as int],
            y == s.v[ry as int],
            rows == sprite_rows(mem, s.i, n as int),
            n <= MAX_SPRITE_ROWS,
            row <= n,
            forall|k: int|
                0 <= k < s.screen.len() ==> #[trigger] c.screen@[k] == (s.screen[k] != (lit_by(
                    w as int,
                    h as int,
                    x as int,
                    y as int,
                    rows,
                    k,
                ) && sprite_row(w as int, h as int, y as int, k) < row)),
            collision ==> exists|k: int|
                0 <= k < s.screen.len() && #[trigger] s.screen[k] && lit_by(
                    w as int,
                    h as int,
                    x as int,
                    y as int,
                    rows,
                    k,
                ) && sprite_row(w as int, h as int, y as int, k) < row,
            !collision ==> forall|k: int|
                0 <= k < s.screen.len() && sprite_row(w as int, h as int, y as int, k) < row
                    ==> !(#[trigger] s.screen[k] && lit_by(w as int, h as int, x as int, y as int, rows, k)),
        decreases n - row,
    {
        let sy = (y + row) % h;
        let byte = m.read(c.i + row);
        assert(byte == rows[row as int]);
        let mut col: usize = 0;
        while col < SPRITE_WIDTH
            invariant
                s.wf(),
                c@ == (ContextView { screen: c@.screen, ..s }),
                m@ == mem,
                c.screen@.len() == s.screen.len(),
                len == s.screen.len(),
                rx < 16,
                ry < 16,
            len == s.screen.len(),
            rx < 16,
            ry < 16,
                w == s.width,
                h == s.height,
                x == s.v[rx as int],
                y == s.v[ry as int],
                rows == sprite_rows(mem, s.i, n as int),
                n <= MAX_SPRITE_ROWS,
                row < n,
                sy == (y + row) % (h as int),
                byte == rows[row as int],
                col <= SPRITE_WIDTH,
                forall|k: int|
                    0 <= k < s.screen.len() ==> #[trigger] c.screen@[k] == (s.screen[k] != (lit_by(
                        w as int,
                        h as int,
                        x as int,
                        y as int,
                        rows,
                        k,
                    ) && (sprite_row(w as int, h as int, y as int, k) < row || (sprite_row(
                        w as int,
                        h as int,
                        y as int,
                        k,
                    ) == row && sprite_col(w as int, x as int, k) < col)))),
                collision ==> exists|k: int|
                    0 <= k < s.screen.len() && #[trigger] s.screen[k] && lit_by(
                        w as int,
                        h as int,
                        x as int,
                        y as int,
                        rows,
                        k,
                    ) && (sprite_row(w as int, h as int, y as int, k) < row || (sprite_row(
                        w as int,
                        h as int,
                        y as int,
                        k,
                    ) == row && sprite_col(w as int, x as int, k) < col)),
                !collision ==> forall|k: int|
                    0 <= k < s.screen.len() && (sprite_row(w as int, h as int, y as int, k) < row || (
                    sprite_row(w as int, h as int, y as int, k) == row && sprite_col(
                        w as int,
                        x as int,
                        k,
                    ) < col)) ==> !(#[trigger] s.screen[k] && lit_by(
                        w as int,
                        h as int,
                        x as int,
                        y as int,
                        rows,
                        k,
                    )),
            decreases SPRITE_WIDTH - col,
        {
            let sx = (x + col) % w;
            proof {
                lemma_dot_position(w as int, h as int, x as int, y as int, row as int, col as int);
            }
            let offset = sy * w + sx;
            let was_set = c.screen[offset];
            let dot_set = (byte >> (7 - col as u8)) & 1 == 1;
            assert(dot_set == lit_by(w as int, h as int, x as int, y as int, rows, offset as int));
            let now = was_set != dot_set;
            let ghost before = c.screen@;
            c.screen.set(offset, now);
            collision = collision || (was_set && !now);
            proof {
                assert forall|k: int| 0 <= k < s.screen.len() && k != offset implies !(sprite_row(
                    w as int,
                    h as int,
                    y as int,
                    k,
                ) == row && sprite_col(w as int, x as int, k) == col) by {
                    lemma_dot_inverse(w as int, h as int, x as int, y as int, k);
                }
            }
            col = col + 1;
        }
        row = row + 1;
    }
    c.v[15] = if collision { 1 } else { 0 };
    reveal(draw_view);
    assert(c@.screen =~= drawn(s.screen, s.width, s.height, x as int, y as int, rows));
}

} // verus!
