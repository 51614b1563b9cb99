use vstd::prelude::*;

verus! {

/// Width of the framebuffer in cells.
pub const WIDTH: u32 = 64;

/// Height of the framebuffer in cells.
pub const HEIGHT: u32 = 32;

/// Number of cells in the framebuffer.
pub const N_CELLS: usize = 2048;

/// Index of the cell at column `col` and row `row`, both taken modulo the grid size.
pub open spec fn cell_index(col: int, row: int) -> int {
    col % (WIDTH as int) + (row % (HEIGHT as int)) * (WIDTH as int)
}

/// Bit `dx` of a sprite row, counting from the most significant bit.
pub open spec fn sprite_bit(byte: u8, dx: int) -> bool {
    (byte >> ((7 - dx) as u8)) & 1 == 1
}

/// How many columns to the right of column `x` (toroidally) cell `p` lies.
pub open spec fn column_offset(p: int, x: int) -> int {
    (p % (WIDTH as int) - x % (WIDTH as int) + WIDTH as int) % (WIDTH as int)
}

/// Cell `p` is one of the eight cells that a sprite row at (`x`, `y`) covers.
pub open spec fn in_sprite_row(p: int, x: int, y: int) -> bool {
    &&& p / (WIDTH as int) == y % (HEIGHT as int)
    &&& column_offset(p, x) < 8
}

/// Cell `p` is toggled by a sprite row `byte` drawn at (`x`, `y`).
pub open spec fn row_toggles(p: int, x: int, y: int, byte: u8) -> bool {
    in_sprite_row(p, x, y) && sprite_bit(byte, column_offset(p, x))
}

/// The frame after XOR-ing one sprite row onto it.
pub open spec fn row_drawn(f: Seq<bool>, x: int, y: int, byte: u8) -> Seq<bool> {
    Seq::new(f.len(), |p: int| if row_toggles(p, x, y, byte) { !f[p] } else { f[p] })
}

/// Drawing one sprite row turns off a lit cell.
pub open spec fn row_collides(f: Seq<bool>, x: int, y: int, byte: u8) -> bool {
    exists|dx: int| 0 <= dx < 8 && sprite_bit(byte, dx) && #[trigger] f[cell_index(x + dx, y)]
}

/// The frame after drawing the rows of `sprite` top to bottom from (`x`, `y`).
pub open spec fn drawn(f: Seq<bool>, x: int, y: int, sprite: Seq<u8>) -> Seq<bool>
    decreases sprite.len(),
{
    if sprite.len() == 0 {
        f
    } else {
        row_drawn(
            drawn(f, x, y, sprite.drop_last()),
            x,
            y + sprite.len() - 1,
            sprite.last(),
        )
    }
}

/// Some row of `sprite`, drawn from (`x`, `y`), turns off a lit cell.
pub open spec fn collides(f: Seq<bool>, x: int, y: int, sprite: Seq<u8>) -> bool
    decreases sprite.len(),
{
    if sprite.len() == 0 {
        false
    } else {
        collides(f, x, y, sprite.drop_last()) || row_collides(
            drawn(f, x, y, sprite.drop_last()),
            x,
            y + sprite.len() - 1,
            sprite.last(),
        )
    }
}

/// The cell that bit `dx` of a row at (`x`, `y`) lands on is in that row, at offset `dx`,
/// and is the only such cell.
proof fn lemma_row_cell(x: int, y: int, dx: int)
    requires
        0 <= x,
        0 <= y,
        0 <= dx < 8,
    ensures
        0 <= cell_index(x + dx, y) < N_CELLS,
        in_sprite_row(cell_index(x + dx, y), x, y),
        column_offset(cell_index(x + dx, y), x) == dx,
        forall|p: int|
            0 <= p < N_CELLS && in_sprite_row(p, x, y) && column_offset(p, x) == dx ==> p
                == cell_index(x + dx, y),
{
    let c = (x + dx) % 64;
    let r = y % 32;
    assert(0 <= c < 64 && 0 <= r < 32);
    let idx = c + r * 64;
    assert(idx / 64 == r && idx % 64 == c) by (nonlinear_arith)
        requires
            idx == c + r * 64,
            0 <= c < 64,
            0 <= r < 32,
    ;
    assert(column_offset(idx, x) == dx) by (nonlinear_arith)
        requires
            c == (x + dx) % 64,
            idx % 64 == c,
            0 <= dx < 8,
            0 <= x,
            column_offset(idx, x) == (idx % 64 - x % 64 + 64) % 64,
    ;
    assert forall|p: int|
        0 <= p < N_CELLS && in_sprite_row(p, x, y) && column_offset(p, x) == dx implies p
            == idx by {
        assert(p == (p / 64) * 64 + p % 64) by (nonlinear_arith);
        assert(p % 64 == c) by (nonlinear_arith)
            requires
                0 <= p,
                c == (x + dx) % 64,
                (p % 64 - x % 64 + 64) % 64 == dx,
                0 <= dx < 8,
                0 <= x,
        ;
    }
}

/// A sprite row drawn at row `r` or at row `y` does the same when the two agree modulo
/// the height.
proof fn lemma_same_row(f: Seq<bool>, x: int, r: int, y: int, byte: u8)
    requires
        r % (HEIGHT as int) == y % (HEIGHT as int),
    ensures
        row_drawn(f, x, r, byte) == row_drawn(f, x, y, byte),
        row_collides(f, x, r, byte) == row_collides(f, x, y, byte),
{
    assert(row_drawn(f, x, r, byte) =~= row_drawn(f, x, y, byte));
    assert forall|dx: int| #[trigger] f[cell_index(x + dx, r)] == f[cell_index(x + dx, y)] by {
        assert(cell_index(x + dx, r) == cell_index(x + dx, y));
    }
    if row_collides(f, x, r, byte) {
        let dx = choose|dx: int|
            0 <= dx < 8 && sprite_bit(byte, dx) && #[trigger] f[cell_index(x + dx, r)];
        assert(f[cell_index(x + dx, y)]);
    }
    if row_collides(f, x, y, byte) {
        let dx = choose|dx: int|
            0 <= dx < 8 && sprite_bit(byte, dx) && #[trigger] f[cell_index(x + dx, y)];
        assert(f[cell_index(x + dx, r)]);
    }
}

/// Whether cell `p` is toggled an odd number of times by the rows of `sprite` drawn from
/// (`x`, `y`).
pub open spec fn toggled(p: int, x: int, y: int, sprite: Seq<u8>) -> bool
    decreases sprite.len(),
{
    if sprite.len() == 0 {
        false
    } else {
        toggled(p, x, y, sprite.drop_last()) != row_toggles(
            p,
            x,
            y + sprite.len() - 1,
            sprite.last(),
        )
    }
}

/// Drawing a sprite flips exactly the cells it toggles an odd number of times, whatever
/// the frame held.
pub proof fn lemma_drawn_cell(f: Seq<bool>, x: int, y: int, sprite: Seq<u8>, p: int)
    requires
        0 <= p < f.len(),
    ensures
        drawn(f, x, y, sprite).len() == f.len(),
        drawn(f, x, y, sprite)[p] == (f[p] != toggled(p, x, y, sprite)),
    decreases sprite.len(),
{
    if sprite.len() > 0 {
        lemma_drawn_cell(f, x, y, sprite.drop_last(), p);
    }
}

/// Drawing the same sprite twice at the same place gives back the frame it started from,
/// so a third such draw reports the same collision as the first.
pub proof fn lemma_draw_twice_restores(f: Seq<bool>, x: u8, y: u8, sprite: Seq<u8>)
    ensures
        drawn(drawn(f, x as int, y as int, sprite), x as int, y as int, sprite) == f,
        collides(drawn(drawn(f, x as int, y as int, sprite), x as int, y as int, sprite), x as int, y as int, sprite)
            == collides(f, x as int, y as int, sprite),
{
    let once = drawn(f, x as int, y as int, sprite);
    let twice = drawn(once, x as int, y as int, sprite);
    if f.len() > 0 {
        lemma_drawn_cell(f, x as int, y as int, sprite, 0);
    } else {
        lemma_drawn_cell_len(f, x as int, y as int, sprite);
    }
    assert forall|p: int| 0 <= p < f.len() implies twice[p] == f[p] by {
        lemma_drawn_cell(f, x as int, y as int, sprite, p);
        lemma_drawn_cell(once, x as int, y as int, sprite, p);
    }
    lemma_drawn_cell_len(once, x as int, y as int, sprite);
    assert(twice =~= f);
}

/// Drawing keeps the size of the frame.
pub proof fn lemma_drawn_cell_len(f: Seq<bool>, x: int, y: int, sprite: Seq<u8>)
    ensures
        drawn(f, x, y, sprite).len() == f.len(),
    decreases sprite.len(),
{
    if sprite.len() > 0 {
        lemma_drawn_cell_len(f, x, y, sprite.drop_last());
    }
}

/// A sprite row drawn at the last column puts its second bit into the first column of
/// the same row.
pub proof fn lemma_wraps_to_first_column(f: Seq<bool>, y: u8, byte: u8)
    requires
        f.len() == N_CELLS,
    ensures
        drawn(f, WIDTH - 1, y as int, seq![byte])[cell_index(0, y as int)] == (f[cell_index(
            0,
            y as int,
        )] != sprite_bit(byte, 1)),
{
    let s = seq![byte];
    let x = WIDTH - 1;
    assert(s.drop_last() =~= Seq::<u8>::empty());
    assert(drawn(f, x, y as int, s.drop_last()) == f);
    assert(drawn(f, x, y as int, s) == row_drawn(f, x, y as int, byte));
    lemma_row_cell(x, y as int, 1);
    assert(cell_index(x + 1, y as int) == cell_index(0, y as int));
}

/// The second row of a sprite drawn at the last row lands in the first row, each bit in
/// its own column.
pub proof fn lemma_wraps_to_first_row(f: Seq<bool>, x: u8, top: u8, bottom: u8, dx: int)
    requires
        f.len() == N_CELLS,
        0 <= dx < 8,
    ensures
        drawn(f, x as int, HEIGHT - 1, seq![top, bottom])[cell_index(x + dx, 0)] == (f[cell_index(
            x + dx,
            0,
        )] != sprite_bit(bottom, dx)),
{
    let s = seq![top, bottom];
    let y = HEIGHT - 1;
    assert(s.drop_last() =~= seq![top]);
    assert(seq![top].drop_last() =~= Seq::<u8>::empty());
    assert(drawn(f, x as int, y, seq![top].drop_last()) == f);
    let g = row_drawn(f, x as int, y, top);
    assert(drawn(f, x as int, y, seq![top]) == g);
    assert(drawn(f, x as int, y, s) == row_drawn(g, x as int, y + 1, bottom));
    let q = cell_index(x + dx, 0);
    lemma_row_cell(x as int, HEIGHT as int, dx);
    assert(cell_index(x + dx, HEIGHT as int) == q);
    assert(q / (WIDTH as int) == 0);
    assert(!in_sprite_row(q, x as int, y));
    assert(g[q] == f[q]);
}

/// The character that shows a lit or an unlit cell.
pub open spec fn glyph(lit: bool) -> char {
    if lit {
        '\u{25FC}'
    } else {
        '\u{25FB}'
    }
}

/// The first `n` cells of `f` as text: a glyph per cell and a line break after each row.
pub open spec fn text_of(f: Seq<bool>, n: int) -> Seq<char>
    decreases n,
{
    if n <= 0 {
        Seq::empty()
    } else {
        let line = text_of(f, n - 1).push(glyph(f[n - 1]));
        if n % (WIDTH as int) == 0 {
            line.push('\n')
        } else {
            line
        }
    }
}

/// The monochrome framebuffer: `WIDTH` x `HEIGHT` cells, row by row.
pub struct DisplayFrame {
    pixels: Vec<bool>,
}

impl View for DisplayFrame {
    type V = Seq<bool>;

    closed spec fn view(&self) -> Seq<bool> {
        self.pixels@
    }
}

impl DisplayFrame {
    /// A blank frame.
    pub fn new() -> (d: DisplayFrame)
        ensures
            d@ == Seq::new(N_CELLS as nat, |p: int| false),
    {
        let pixels = vec![false; N_CELLS];
        assert(pixels@ =~= Seq::new(N_CELLS as nat, |p: int| false));
        DisplayFrame { pixels }
    }

    fn get_index(&self, x: u32, y: u32) -> (r: usize)
        ensures
            r == cell_index(x as int, y as int),
    {
        ((x % WIDTH) + (y % HEIGHT) * WIDTH) as usize
    }

    /// The cells, row by row.
    pub fn pixels(&self) -> (r: &[bool])
        ensures
            r@ == self@,
    {
        self.pixels.as_slice()
    }

    /// Turns every cell off.
    pub fn clear(&mut self)
        ensures
            final(self)@ == Seq::new(old(self)@.len(), |p: int| false),
    {
        let mut idx: usize = 0;
        while idx < self.pixels.len()
            invariant
                self.pixels@.len() == old(self)@.len(),
                idx <= self.pixels@.len(),
                forall|p: int| 0 <= p < idx ==> !self.pixels@[p],
            decreases self.pixels@.len() - idx,
        {
            self.pixels.set(idx, false);
            idx += 1;
        }
        assert(self.pixels@ =~= Seq::new(old(self)@.len(), |p: int| false));
    }

    /// The frame as text, one line per row, `WIDTH` glyphs per line.
    pub fn to_text(&self) -> (r: String)
        requires
            self@.len() == N_CELLS,
        ensures
            r@ == text_of(self@, N_CELLS as int),
    {
        let mut text = String::new();
        let mut idx: usize = 0;
        while idx < self.pixels.len()
            invariant
                idx <= self.pixels@.len() == N_CELLS,
                text@ == text_of(self@, idx as int),
            decreases self.pixels@.len() - idx,
        {
            proof {
                reveal_strlit("\u{25FC}");
                reveal_strlit("\u{25FB}");
                reveal_strlit("\n");
            }
            let ghost before = text@;
            if self.pixels[idx] {
                text.append("\u{25FC}");
            } else {
                text.append("\u{25FB}");
            }
            assert(text@ =~= before.push(glyph(self@[idx as int])));
            idx += 1;
            if idx % (WIDTH as usize) == 0 {
                let ghost line = text@;
                text.append("\n");
                assert(text@ =~= line.push('\n'));
            }
        }
        text
    }

    /// XORs `sprite`, one byte per row, onto the frame at (`x`, `y`), wrapping at the
    /// edges. Returns whether any lit cell was turned off.
    pub fn draw(&mut self, x: u8, y: u8, sprite: &[u8]) -> (collided: bool)
        requires
            old(self)@.len() == N_CELLS,
        ensures
            final(self)@.len() == N_CELLS,
            final(self)@ == drawn(old(self)@, x as int, y as int, sprite@),
            collided == collides(old(self)@, x as int, y as int, sprite@),
    {
        let mut change = false;
        let mut dy: usize = 0;
        while dy < sprite.len()
            invariant
                dy <= sprite@.len(),
                self@.len() == N_CELLS,
                self@ == drawn(old(self)@, x as int, y as int, sprite@.take(dy as int)),
                change == collides(old(self)@, x as int, y as int, sprite@.take(dy as int)),
            decreases sprite@.len() - dy,
        {
            let row = ((y as usize % 32 + dy % 32) % 32) as u8;
            assert(row as int % 32 == (y as int + dy as int) % 32) by (nonlinear_arith)
                requires
                    row as int == (y as int % 32 + dy as int % 32) % 32,
                    0 <= y,
                    0 <= dy,
            ;
            let ghost old_frame = self@;
            proof {
                lemma_same_row(old_frame, x as int, row as int, y as int + dy as int, sprite@[dy as int]);
                let next = sprite@.take(dy + 1);
                assert(next.drop_last() =~= sprite@.take(dy as int));
            }
            let hit = self.draw_sprite(x, row, sprite[dy]);
            change = change || hit;
            dy += 1;
        }
        assert(sprite@.take(sprite@.len() as int) =~= sprite@);
        change
    }

    /// XORs one sprite row onto the frame at (`x`, `y`); returns whether a lit cell was
    /// turned off.
    fn draw_sprite(&mut self, x: u8, y: u8, sprite: u8) -> (collided: bool)
        requires
            old(self)@.len() == N_CELLS,
        ensures
            final(self)@ == row_drawn(old(self)@, x as int, y as int, sprite),
            collided == row_collides(old(self)@, x as int, y as int, sprite),
    {
        let ghost f = self@;
        let mut change = false;
        let mut i: u8 = 0;
        while i < 8
            invariant
                i <= 8,
                f == old(self)@,
                f.len() == N_CELLS,
                self@.len() == N_CELLS,
                forall|p: int|
                    0 <= p < N_CELLS ==> #[trigger] self@[p] == if row_toggles(
                        p,
                        x as int,
                        y as int,
                        sprite,
                    ) && column_offset(p, x as int) < i {
                        !f[p]
                    } else {
                        f[p]
                    },
                change == exists|dx: int|
                    0 <= dx < i && sprite_bit(sprite, dx) && #[trigger] f[cell_index(
                        x as int + dx,
                        y as int,
                    )],
            decreases 8 - i,
        {
            let index = self.get_index(x as u32 + i as u32, y as u32);
            proof {
                lemma_row_cell(x as int, y as int, i as int);
            }
            let bit = (sprite >> (7 - i)) & 1 == 1;
            assert(bit == sprite_bit(sprite, i as int));
            let old_pixel = self.pixels[index];
            let new_pixel = bit ^ old_pixel;
            change = change || (old_pixel && !new_pixel);
            self.pixels.set(index, new_pixel);
            i += 1;
        }
        assert(self@ =~= row_drawn(f, x as int, y as int, sprite));
        change
    }
}

} // verus!
