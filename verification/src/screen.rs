//! The framebuffer model of the draw instruction: where a sprite bit lands,
//! what an XOR blit leaves on the screen, and when it reports a collision.
//!
//! A sprite is `n` rows of 8 columns read from memory at the index register.
//! Row `r`, column `c` lands on screen row `(vy + r) % 32` and column
//! `(vx + c) % 64`: coordinates wrap modulo the screen dimensions. Since
//! `n <= 15 < 32` and `8 < 64`, no two sprite bits land on the same pixel.

use vstd::prelude::*;

use vstd::arithmetic::div_mod::{
    lemma_fundamental_div_mod, lemma_fundamental_div_mod_converse, lemma_mod_multiples_vanish,
    lemma_small_mod,
};

verus! {

/// The framebuffer index on which sprite row `r`, column `c` lands when the
/// sprite is drawn at coordinates `(vx, vy)`.
pub open spec fn pix_index(vx: u8, vy: u8, r: int, c: int) -> int {
    ((vy + r) % 32) * 64 + ((vx + c) % 64)
}

/// The one sprite row that can land on framebuffer index `p`.
pub open spec fn hit_row(vy: u8, p: int) -> int {
    ((p / 64) - vy) % 32
}

/// The one sprite column that can land on framebuffer index `p`.
pub open spec fn hit_col(vx: u8, p: int) -> int {
    ((p % 64) - vx) % 64
}

/// Bit `c` of a sprite row byte, counted from the left: column 0 is the
/// most significant bit.
pub open spec fn row_bit(byte: u8, c: int) -> u8 {
    (byte >> ((7 - c) as u8)) & 1
}

/// A toggled pixel: 0 becomes 1 and 1 becomes 0.
pub open spec fn flip(b: u8) -> u8 {
    (1 - b) as u8
}

/// Sprite position `(r, c)` comes strictly before `(row, col)` in the
/// row-major order in which the blit proceeds.
pub open spec fn before(r: int, c: int, row: int, col: int) -> bool {
    r < row || (r == row && c < col)
}

/// The value of framebuffer index `p` once the blit has processed every
/// sprite position strictly before `(row, col)`: toggled exactly when the
/// sprite bit that lands on `p` has been processed and is set.
pub open spec fn partial_pixel(
    s0: Seq<u8>,
    ram: Seq<u8>,
    i: int,
    vx: u8,
    vy: u8,
    row: int,
    col: int,
    p: int,
) -> u8 {
    let r = hit_row(vy, p);
    let c = hit_col(vx, p);
    if c < 8 && before(r, c, row, col) && row_bit(ram[i + r], c) == 1 {
        flip(s0[p])
    } else {
        s0[p]
    }
}

/// Whether the blit has seen a collision — a set sprite bit landing on an
/// already-set pixel — among the positions strictly before `(row, col)`.
pub open spec fn partial_collision(
    s0: Seq<u8>,
    ram: Seq<u8>,
    i: int,
    vx: u8,
    vy: u8,
    row: int,
    col: int,
) -> bool {
    exists|r: int, c: int|
        {
            &&& 0 <= r
            &&& 0 <= c < 8
            &&& before(r, c, row, col)
            &&& #[trigger] row_bit(ram[i + r], c) == 1
            &&& s0[pix_index(vx, vy, r, c)] == 1
        }
}

/// The value of framebuffer index `p` after an `n`-row sprite at memory
/// address `i` was drawn at `(vx, vy)` over the screen `s0`.
pub open spec fn draw_pixel(
    s0: Seq<u8>,
    ram: Seq<u8>,
    i: int,
    vx: u8,
    vy: u8,
    n: int,
    p: int,
) -> u8 {
    partial_pixel(s0, ram, i, vx, vy, n, 0, p)
}

/// The whole framebuffer after the draw.
pub open spec fn draw_seq(s0: Seq<u8>, ram: Seq<u8>, i: int, vx: u8, vy: u8, n: int) -> Seq<u8> {
    Seq::new(s0.len(), |p: int| draw_pixel(s0, ram, i, vx, vy, n, p))
}

/// Whether the draw toggles some previously-set pixel off.
pub open spec fn draw_collision(s0: Seq<u8>, ram: Seq<u8>, i: int, vx: u8, vy: u8, n: int) -> bool {
    partial_collision(s0, ram, i, vx, vy, n, 0)
}

/// Wrapping a step of size `r < m` from any base lands `r` past the base,
/// modulo `m`.
proof fn lemma_wrap_inverse(base: int, r: int, m: int)
    requires
        0 < m,
        0 <= r < m,
        0 <= base,
    ensures
        ((base + r) % m - base) % m == r,
{
    lemma_fundamental_div_mod(base + r, m);
    let q = (base + r) / m;
    assert(m * (-q) == -(m * q)) by (nonlinear_arith);
    assert((base + r) % m - base == m * (-q) + r);
    lemma_mod_multiples_vanish(-q, r, m);
    lemma_small_mod(r as nat, m as nat);
}

/// Stepping from any base by the wrapped distance to `p` lands on `p`,
/// modulo `m`.
proof fn lemma_wrap_forward(base: int, p: int, m: int)
    requires
        0 < m,
        0 <= p < m,
        0 <= base,
    ensures
        (base + ((p - base) % m)) % m == p,
{
    lemma_fundamental_div_mod(p - base, m);
    let q = (p - base) / m;
    assert(m * (-q) == -(m * q)) by (nonlinear_arith);
    assert(base + ((p - base) % m) == m * (-q) + p);
    lemma_mod_multiples_vanish(-q, p, m);
    lemma_small_mod(p as nat, m as nat);
}

/// Sprite position `(r, c)` lands on a valid framebuffer index whose hit row
/// and hit column are `(r, c)` again: the landing map is injective.
pub proof fn lemma_pix_inverse(vx: u8, vy: u8, r: int, c: int)
    requires
        0 <= r < 32,
        0 <= c < 64,
    ensures
        0 <= pix_index(vx, vy, r, c) < 2048,
        hit_row(vy, pix_index(vx, vy, r, c)) == r,
        hit_col(vx, pix_index(vx, vy, r, c)) == c,
{
    let row = (vy + r) % 32;
    let col = (vx + c) % 64;
    let p = row * 64 + col;
    lemma_fundamental_div_mod_converse(p, 64, row, col);
    lemma_wrap_inverse(vy as int, r, 32);
    lemma_wrap_inverse(vx as int, c, 64);
}

/// Every framebuffer index is where its own hit row and hit column land.
pub proof fn lemma_pix_forward(vx: u8, vy: u8, p: int)
    requires
        0 <= p < 2048,
    ensures
        0 <= hit_row(vy, p) < 32,
        0 <= hit_col(vx, p) < 64,
        pix_index(vx, vy, hit_row(vy, p), hit_col(vx, p)) == p,
{
    lemma_fundamental_div_mod_converse(p, 64, p / 64, p % 64);
    lemma_wrap_forward(vy as int, p / 64, 32);
    lemma_wrap_forward(vx as int, p % 64, 64);
    lemma_fundamental_div_mod(p, 64);
}

/// Drawing the same sprite at the same coordinates twice in succession
/// restores every pixel to its pre-draw state: each covered pixel is
/// toggled twice and every other pixel is never touched.
pub proof fn lemma_draw_twice_restores(
    s0: Seq<u8>,
    ram: Seq<u8>,
    i: int,
    vx: u8,
    vy: u8,
    n: int,
)
    requires
        s0.len() == 2048,
        forall|p: int| 0 <= p < 2048 ==> s0[p] <= 1,
    ensures
        draw_seq(draw_seq(s0, ram, i, vx, vy, n), ram, i, vx, vy, n) == s0,
{
    let s1 = draw_seq(s0, ram, i, vx, vy, n);
    assert(draw_seq(s1, ram, i, vx, vy, n) =~= s0);
}

/// When every pixel covered by a set sprite bit is set beforehand, the
/// second of two identical draws reports no collision: the first draw
/// toggles all of those pixels off, so the second finds none of them set.
/// (Conversely, a set sprite bit over a clear pixel makes the second draw
/// report a collision, so the flag is not zero on all inputs.)
pub proof fn lemma_draw_twice_no_collision(
    s0: Seq<u8>,
    ram: Seq<u8>,
    i: int,
    vx: u8,
    vy: u8,
    n: int,
)
    requires
        s0.len() == 2048,
        ram.len() == 4096,
        forall|p: int| 0 <= p < 2048 ==> s0[p] <= 1,
        0 <= n <= 32,
        0 <= i,
        i + n <= 4096,
        forall|r: int, c: int|
            0 <= r < n && 0 <= c < 8 && #[trigger] row_bit(ram[i + r], c) == 1 ==> s0[pix_index(
                vx,
                vy,
                r,
                c,
            )] == 1,
    ensures
        !draw_collision(draw_seq(s0, ram, i, vx, vy, n), ram, i, vx, vy, n),
{
    let s1 = draw_seq(s0, ram, i, vx, vy, n);
    if draw_collision(s1, ram, i, vx, vy, n) {
        let (r, c) = choose|r: int, c: int|
            {
                &&& 0 <= r
                &&& 0 <= c < 8
                &&& before(r, c, n, 0)
                &&& #[trigger] row_bit(ram[i + r], c) == 1
                &&& s1[pix_index(vx, vy, r, c)] == 1
            };
        let p = pix_index(vx, vy, r, c);
        lemma_pix_inverse(vx, vy, r, c);
        assert(s0[p] == 1);
        assert(s1[p] == flip(s0[p]));
        assert(false);
    }
}

} // verus!
