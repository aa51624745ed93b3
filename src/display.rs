use vstd::prelude::*;
use vstd::arithmetic::div_mod::lemma_fundamental_div_mod;
use vstd::arithmetic::div_mod::lemma_fundamental_div_mod_converse;
use vstd::arithmetic::div_mod::lemma_multiply_divide_lt;
use vstd::arithmetic::div_mod::lemma_small_mod;

verus! {

/// Column of the pixel stored at `k` in a column-major buffer of height `h`.
pub open spec fn col_of(k: int, h: int) -> int {
    k / h
}

/// Row of the pixel stored at `k` in a column-major buffer of height `h`.
pub open spec fn row_of(k: int, h: int) -> int {
    k % h
}

/// Whether the pixel stored at `k` lies in the `scale` by `scale` block of
/// logical pixel (`lx`, `ly`).
pub open spec fn in_block(k: int, h: int, scale: int, lx: int, ly: int) -> bool {
    col_of(k, h) / scale == lx && row_of(k, h) / scale == ly
}

/// Bit `k` of `v`.
pub open spec fn bit_set(v: u16, k: u16) -> bool {
    (v >> k) & 1u16 == 1u16
}

/// A buffer position maps to one column and row, and back.
pub proof fn lemma_index(k: int, h: int, px: int, py: int)
    requires
        h > 0,
        k >= 0,
        0 <= py < h,
    ensures
        (k == px * h + py) <==> (col_of(k, h) == px && row_of(k, h) == py),
{
    lemma_fundamental_div_mod(k, h);
    if k == px * h + py {
        lemma_fundamental_div_mod_converse(k, h, px, py);
    }
    if col_of(k, h) == px && row_of(k, h) == py {
        assert(k == px * h + py) by (nonlinear_arith)
            requires
                k == h * (k / h) + k % h,
                k / h == px,
                k % h == py,
        ;
    }
}

/// Flips the pixel at column `px`, row `py`, and returns whether it was lit.
fn flip_one(display: &mut Vec<bool>, h: usize, px: usize, py: usize) -> (was_lit: bool)
    requires
        h > 0,
        py < h,
        px * h + py < old(display)@.len(),
    ensures
        final(display)@.len() == old(display)@.len(),
        was_lit == old(display)@[px * h + py],
        forall|k: int|
            0 <= k < old(display)@.len() ==> #[trigger] final(display)@[k] == (old(display)@[k]
                != (col_of(k, h as int) == px && row_of(k, h as int) == py)),
{
    let len = display.len();
    assert(px * h <= px * h + py);
    let i = px * h + py;
    let was_lit = display[i];
    display.set(i, !was_lit);
    proof {
        assert forall|k: int| 0 <= k < old(display)@.len() implies (k == i) == (col_of(
            k,
            h as int,
        ) == px && row_of(k, h as int) == py) by {
            lemma_index(k, h as int, px as int, py as int);
        }
    }
    was_lit
}

/// Flips the `scale` by `scale` block of logical pixel (`lx`, `ly`), and
/// returns whether any pixel of it was lit.
pub fn flip_block(display: &mut Vec<bool>, h: usize, scale: usize, lx: usize, ly: usize) -> (was_lit: bool)
    requires
        scale == 1 || scale == 2,
        h == 32 || h == 64,
        lx < 128,
        ly < 64,
        scale * ly + scale <= h,
        (scale * lx + scale) * h <= old(display)@.len(),
    ensures
        final(display)@.len() == old(display)@.len(),
        forall|k: int|
            0 <= k < old(display)@.len() ==> #[trigger] final(display)@[k] == (old(display)@[k]
                != in_block(k, h as int, scale as int, lx as int, ly as int)),
        was_lit == exists|k: int|
            0 <= k < old(display)@.len() && in_block(k, h as int, scale as int, lx as int, ly as int)
                && #[trigger] old(display)@[k],
{
    let ghost d0 = display@;
    let ghost hh = h as int;
    if scale == 1 {
        let lit = flip_one(display, h, lx, ly);
        proof {
            let k0 = lx * h + ly;
            lemma_index(k0, hh, lx as int, ly as int);
            if lit {
                assert(in_block(k0, hh, 1, lx as int, ly as int) && d0[k0]);
            }
        }
        lit
    } else {
        assert(2 * lx + 1 < 2 * lx + 2);
        assert((2 * lx + 1) * h + 2 * ly + 1 < (2 * lx + 2) * h) by (nonlinear_arith)
            requires
                2 * ly + 2 <= h,
        ;
        assert((2 * lx) * h <= (2 * lx + 1) * h) by (nonlinear_arith);
        let a = flip_one(display, h, 2 * lx, 2 * ly);
        let b = flip_one(display, h, 2 * lx, 2 * ly + 1);
        let c = flip_one(display, h, 2 * lx + 1, 2 * ly);
        let d = flip_one(display, h, 2 * lx + 1, 2 * ly + 1);
        proof {
            let k1 = (2 * lx) * h + 2 * ly;
            let k2 = (2 * lx) * h + 2 * ly + 1;
            let k3 = (2 * lx + 1) * h + 2 * ly;
            let k4 = (2 * lx + 1) * h + 2 * ly + 1;
            lemma_index(k1, hh, 2 * lx, 2 * ly);
            lemma_index(k2, hh, 2 * lx, 2 * ly + 1);
            lemma_index(k3, hh, 2 * lx + 1, 2 * ly);
            lemma_index(k4, hh, 2 * lx + 1, 2 * ly + 1);
            assert(a == d0[k1]);
            assert(b == d0[k2]);
            assert(c == d0[k3]);
            assert(d == d0[k4]);
            if a || b || c || d {
                if a {
                    assert(in_block(k1, hh, 2, lx as int, ly as int) && d0[k1]);
                } else if b {
                    assert(in_block(k2, hh, 2, lx as int, ly as int) && d0[k2]);
                } else if c {
                    assert(in_block(k3, hh, 2, lx as int, ly as int) && d0[k3]);
                } else {
                    assert(in_block(k4, hh, 2, lx as int, ly as int) && d0[k4]);
                }
            } else {
                assert forall|k: int|
                    0 <= k < d0.len() && in_block(k, hh, 2, lx as int, ly as int) implies !d0[k] by {
                    lemma_fundamental_div_mod(k, hh);
                    let px = col_of(k, hh);
                    let py = row_of(k, hh);
                    lemma_index(k, hh, px, py);
                }
            }
        }
        a || b || c || d
    }
}

/// The placement of one sprite draw on a framebuffer.
#[derive(Debug, Clone, Copy, PartialEq, Eq, Structural)]
pub struct Blit {
    /// Framebuffer width in pixels.
    pub width: usize,
    /// Framebuffer height in pixels.
    pub height: usize,
    /// Pixels per logical pixel along each axis.
    pub scale: usize,
    /// Starting logical column, already reduced modulo the logical width.
    pub x0: usize,
    /// Starting logical row, already reduced modulo the logical height.
    pub y0: usize,
    /// Number of sprite rows.
    pub rows: usize,
    /// Sixteen pixels per row (two bytes) instead of eight (one byte).
    pub wide: bool,
}

/// The bits of sprite row `dy`, read from memory at `index` with wrap-around.
pub open spec fn sprite_row(ram: Seq<u8>, index: u16, wide: bool, dy: int) -> u16 {
    if wide {
        (ram[(index + 2 * dy) % 4096] as int * 256 + ram[(index + 2 * dy + 1) % 4096] as int) as u16
    } else {
        ram[(index + dy) % 4096] as u16
    }
}

impl Blit {
    pub open spec fn logical_width(self) -> int {
        self.width as int / self.scale as int
    }

    pub open spec fn logical_height(self) -> int {
        self.height as int / self.scale as int
    }

    pub open spec fn bits(self) -> int {
        if self.wide {
            16
        } else {
            8
        }
    }

    /// Rows that fall on screen; the rest are clipped at the bottom edge.
    pub open spec fn drawn_rows(self) -> int {
        if self.rows + self.y0 <= self.logical_height() {
            self.rows as int
        } else {
            self.logical_height() - self.y0
        }
    }

    pub open spec fn wf(self) -> bool {
        &&& (self.scale == 1 || self.scale == 2)
        &&& ((self.width == 64 && self.height == 32) || (self.width == 128 && self.height == 64))
        &&& self.x0 < self.logical_width()
        &&& self.y0 < self.logical_height()
        &&& self.rows <= 16
    }

    /// Sprite row and column of the logical pixel that holds buffer position `k`.
    pub open spec fn dy(self, k: int) -> int {
        row_of(k, self.height as int) / self.scale as int - self.y0
    }

    pub open spec fn dx(self, k: int) -> int {
        col_of(k, self.height as int) / self.scale as int - self.x0
    }

    /// Whether buffer position `k` is flipped by the sprite bits of the first
    /// `i` rows and of the first `j` columns of row `i`.
    pub open spec fn covers_upto(self, ram: Seq<u8>, index: u16, k: int, i: int, j: int) -> bool {
        let dx = self.dx(k);
        let dy = self.dy(k);
        &&& 0 <= dx < self.bits()
        &&& 0 <= dy < self.drawn_rows()
        &&& (dy < i || (dy == i && dx < j))
        &&& bit_set(sprite_row(ram, index, self.wide, dy), (self.bits() - 1 - dx) as u16)
    }

    /// Whether buffer position `k` is flipped by the draw.
    pub open spec fn covers(self, ram: Seq<u8>, index: u16, k: int) -> bool {
        self.covers_upto(ram, index, k, self.drawn_rows(), 0)
    }

    /// Whether the draw turns off a lit pixel in sprite row `r`.
    pub open spec fn row_hit(self, ram: Seq<u8>, index: u16, before: Seq<bool>, r: int) -> bool {
        exists|k: int|
            0 <= k < before.len() && self.covers(ram, index, k) && self.dy(k) == r
                && #[trigger] before[k]
    }

    /// Number of sprite rows below `r` that turn off a lit pixel.
    pub open spec fn hit_count(self, ram: Seq<u8>, index: u16, before: Seq<bool>, r: int) -> int
        decreases r,
    {
        if r <= 0 {
            0
        } else {
            self.hit_count(ram, index, before, r - 1) + if self.row_hit(ram, index, before, r - 1) {
                1int
            } else {
                0int
            }
        }
    }
}

proof fn lemma_hit_count_bound(b: Blit, ram: Seq<u8>, index: u16, before: Seq<bool>, r: int)
    requires
        r >= 0,
    ensures
        0 <= b.hit_count(ram, index, before, r) <= r,
    decreases r,
{
    if r > 0 {
        lemma_hit_count_bound(b, ram, index, before, r - 1);
    }
}

/// XOR-draws a sprite read from `ram` at `index`, and returns how many sprite
/// rows turned off at least one lit pixel. Columns past the right edge and rows
/// past the bottom edge are clipped.
pub fn blit(display: &mut Vec<bool>, ram: &Vec<u8>, index: u16, b: Blit) -> (hits: u8)
    requires
        b.wf(),
        ram@.len() == 4096,
        old(display)@.len() == b.width * b.height,
    ensures
        final(display)@.len() == old(display)@.len(),
        forall|k: int|
            0 <= k < old(display)@.len() ==> #[trigger] final(display)@[k] == (old(display)@[k]
                != b.covers(ram@, index, k)),
        hits == b.hit_count(ram@, index, old(display)@, b.drawn_rows()),
        hits <= b.rows,
{
    let ghost d0 = display@;
    let lw = b.width / b.scale;
    let lh = b.height / b.scale;
    let bits: usize = if b.wide { 16 } else { 8 };
    let mut hits: u8 = 0;
    let mut i: usize = 0;
    while i < b.rows && b.y0 + i < lh
        invariant
            b.wf(),
            ram@.len() == 4096,
            d0.len() == b.width * b.height,
            display@.len() == d0.len(),
            lw == b.logical_width(),
            lh == b.logical_height(),
            bits == b.bits(),
            i <= b.drawn_rows(),
            forall|k: int|
                0 <= k < d0.len() ==> #[trigger] display@[k] == (d0[k] != b.covers_upto(
                    ram@,
                    index,
                    k,
                    i as int,
                    0,
                )),
            hits == b.hit_count(ram@, index, d0, i as int),
        decreases b.rows - i,
    {
        let row: u16 = if b.wide {
            let a = ((index as usize + 2 * i) % 4096) as usize;
            let c = ((index as usize + 2 * i + 1) % 4096) as usize;
            ram[a] as u16 * 256 + ram[c] as u16
        } else {
            ram[((index as usize + i) % 4096) as usize] as u16
        };
        assert(row == sprite_row(ram@, index, b.wide, i as int));
        let mut hit = false;
        let mut j: usize = 0;
        while j < bits && b.x0 + j < lw
            invariant
                b.wf(),
                d0.len() == b.width * b.height,
                display@.len() == d0.len(),
                lw == b.logical_width(),
                lh == b.logical_height(),
                bits == b.bits(),
                i < b.drawn_rows(),
                row == sprite_row(ram@, index, b.wide, i as int),
                j <= bits,
                forall|k: int|
                    0 <= k < d0.len() ==> #[trigger] display@[k] == (d0[k] != b.covers_upto(
                        ram@,
                        index,
                        k,
                        i as int,
                        j as int,
                    )),
                hit == exists|k: int|
                    0 <= k < d0.len() && b.covers_upto(ram@, index, k, i as int, j as int) && b.dy(
                        k,
                    ) == i && #[trigger] d0[k],
            decreases bits - j,
        {
            if bit_set_exec(row, (bits - 1 - j) as u16) {
                let ghost before = display@;
                let lit = flip_block(display, b.height, b.scale, b.x0 + j, b.y0 + i);
                proof {
                    assert forall|k: int| 0 <= k < d0.len() implies in_block(
                        k,
                        b.height as int,
                        b.scale as int,
                        (b.x0 + j) as int,
                        (b.y0 + i) as int,
                    ) == (b.dx(k) == j && b.dy(k) == i) by {}
                    if lit {
                        let w = choose|k: int|
                            0 <= k < before.len() && in_block(
                                k,
                                b.height as int,
                                b.scale as int,
                                (b.x0 + j) as int,
                                (b.y0 + i) as int,
                            ) && #[trigger] before[k];
                        assert(b.covers_upto(ram@, index, w, i as int, j + 1) && b.dy(w) == i
                            && d0[w]);
                    }
                    if hit {
                        let w = choose|k: int|
                            0 <= k < d0.len() && b.covers_upto(ram@, index, k, i as int, j as int)
                                && b.dy(k) == i && #[trigger] d0[k];
                        assert(b.covers_upto(ram@, index, w, i as int, j + 1) && b.dy(w) == i
                            && d0[w]);
                    }
                    if !lit && !hit {
                        assert forall|k: int|
                            0 <= k < d0.len() && b.covers_upto(ram@, index, k, i as int, j + 1)
                                && b.dy(k) == i implies !d0[k] by {
                            if b.dx(k) == j {
                                assert(!before[k]);
                            }
                        }
                    }
                }
                hit = hit || lit;
            } else {
                proof {
                    assert forall|k: int| 0 <= k < d0.len() implies b.covers_upto(
                        ram@,
                        index,
                        k,
                        i as int,
                        j + 1,
                    ) == b.covers_upto(ram@, index, k, i as int, j as int) by {}
                }
            }
            j = j + 1;
        }
        proof {
            assert forall|k: int| 0 <= k < d0.len() implies b.covers_upto(
                ram@,
                index,
                k,
                i as int,
                j as int,
            ) == b.covers_upto(ram@, index, k, i + 1, 0) by {
                lemma_multiply_divide_lt(k, b.height as int, b.width as int);
                let c = col_of(k, b.height as int);
                assert(0 <= c < b.width);
                if b.scale == 1 {
                    assert(c / 1 == c);
                } else {
                    assert(c / 2 < b.width as int / 2);
                }
                assert(b.dx(k) + b.x0 < lw);
            }
            assert(hit == b.row_hit(ram@, index, d0, i as int)) by {
                if hit {
                    let w = choose|k: int|
                        0 <= k < d0.len() && b.covers_upto(ram@, index, k, i as int, j as int)
                            && b.dy(k) == i && #[trigger] d0[k];
                    assert(b.covers(ram@, index, w));
                }
                if b.row_hit(ram@, index, d0, i as int) {
                    let w = choose|k: int|
                        0 <= k < d0.len() && b.covers(ram@, index, k) && b.dy(k) == i
                            && #[trigger] d0[k];
                    assert(b.covers_upto(ram@, index, w, i as int, j as int));
                }
            }
            lemma_hit_count_bound(b, ram@, index, d0, i as int);
        }
        if hit {
            hits = hits + 1;
        }
        i = i + 1;
    }
    proof {
        lemma_hit_count_bound(b, ram@, index, d0, i as int);
    }
    hits
}

/// Executable form of `bit_set`.
pub(crate) fn bit_set_exec(v: u16, k: u16) -> (r: bool)
    requires
        k < 16,
    ensures
        r == bit_set(v, k),
{
    (v >> k) & 1u16 == 1u16
}

/// The buffer moved towards higher positions by `cells`, the vacated start unlit.
/// In a column-major buffer `cells = c * h` moves the picture `c` columns right.
pub open spec fn shifted_up(d: Seq<bool>, cells: int) -> Seq<bool> {
    Seq::new(d.len(), |k: int| if k < cells { false } else { d[k - cells] })
}

/// The buffer moved towards lower positions by `cells`, the vacated end unlit.
pub open spec fn shifted_down(d: Seq<bool>, cells: int) -> Seq<bool> {
    Seq::new(d.len(), |k: int| if k + cells >= d.len() { false } else { d[k + cells] })
}

/// Every column moved `n` rows down, the top `n` rows of each column unlit.
pub open spec fn rows_scrolled(d: Seq<bool>, h: int, n: int) -> Seq<bool> {
    Seq::new(d.len(), |k: int| if k % h < n { false } else { d[k - n] })
}

/// Returns the buffer moved by `cells` positions, towards higher positions when
/// `up` holds, else towards lower ones.
pub fn shift(d: &Vec<bool>, cells: usize, up: bool) -> (r: Vec<bool>)
    requires
        cells <= d@.len(),
    ensures
        up ==> r@ == shifted_up(d@, cells as int),
        !up ==> r@ == shifted_down(d@, cells as int),
{
    let len = d.len();
    let mut r: Vec<bool> = Vec::new();
    let mut k: usize = 0;
    while k < len
        invariant
            len == d@.len(),
            cells <= len,
            k <= len,
            r@.len() == k,
            forall|i: int|
                0 <= i < k ==> #[trigger] r@[i] == (if up {
                    shifted_up(d@, cells as int)[i]
                } else {
                    shifted_down(d@, cells as int)[i]
                }),
        decreases len - k,
    {
        let v = if up {
            if k < cells {
                false
            } else {
                d[k - cells]
            }
        } else {
            if k >= len - cells {
                false
            } else {
                d[k + cells]
            }
        };
        r.push(v);
        k = k + 1;
    }
    proof {
        if up {
            assert(r@ =~= shifted_up(d@, cells as int));
        } else {
            assert(r@ =~= shifted_down(d@, cells as int));
        }
    }
    r
}

/// Returns the buffer with every column moved `n` rows down.
pub fn scroll_rows(d: &Vec<bool>, h: usize, n: usize) -> (r: Vec<bool>)
    requires
        h > 0,
        n <= h,
    ensures
        r@ == rows_scrolled(d@, h as int, n as int),
{
    let len = d.len();
    let mut r: Vec<bool> = Vec::new();
    let mut k: usize = 0;
    while k < len
        invariant
            len == d@.len(),
            h > 0,
            n <= h,
            k <= len,
            r@.len() == k,
            forall|i: int|
                0 <= i < k ==> #[trigger] r@[i] == rows_scrolled(d@, h as int, n as int)[i],
        decreases len - k,
    {
        proof {
            if k < n {
                lemma_small_mod(k as nat, h as nat);
            }
        }
        let v = if k < n || k % h < n {
            false
        } else {
            d[k - n]
        };
        r.push(v);
        k = k + 1;
    }
    assert(r@ =~= rows_scrolled(d@, h as int, n as int));
    r
}

} // verus!
