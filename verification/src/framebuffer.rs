//! The pixel store: a fixed-size grid of 32-bit cells, each `0x00RRGGBB`.

use vstd::prelude::*;

verus! {

/// The cell value `0x00RRGGBB` of a colour.
pub open spec fn pack(red: u8, green: u8, blue: u8) -> u32 {
    (red as int * 65536 + green as int * 256 + blue as int) as u32
}

/// The colour held in a cell; the highest byte of the cell is ignored.
pub open spec fn unpack(cell: u32) -> (u8, u8, u8) {
    (((cell as int / 65536) % 256) as u8, ((cell as int / 256) % 256) as u8, (cell as int % 256) as u8)
}

/// The four bytes of a cell in memory, least significant byte first when
/// `little`, most significant byte first otherwise.
pub open spec fn word_bytes(cell: u32, little: bool) -> Seq<u8> {
    let b0 = (cell as int % 256) as u8;
    let b1 = ((cell as int / 256) % 256) as u8;
    let b2 = ((cell as int / 65536) % 256) as u8;
    let b3 = (cell as int / 16777216) as u8;
    if little {
        seq![b0, b1, b2, b3]
    } else {
        seq![b3, b2, b1, b0]
    }
}

/// The memory image of a run of cells: four bytes per cell, in cell order.
pub open spec fn image(cells: Seq<u32>, little: bool) -> Seq<u8> {
    Seq::new(4 * cells.len(), |i: int| word_bytes(cells[i / 4], little)[i % 4])
}

/// What a framebuffer is, mathematically: its dimensions and its cells in
/// row-major order.
pub struct Canvas {
    pub width: nat,
    pub height: nat,
    pub cells: Seq<u32>,
}

impl Canvas {
    /// There is exactly one cell per coordinate.
    pub open spec fn wf(self) -> bool {
        self.cells.len() == self.width * self.height
    }

    pub open spec fn contains(self, x: nat, y: nat) -> bool {
        x < self.width && y < self.height
    }

    /// Position of `(x, y)` in the row-major cell sequence.
    pub open spec fn index_of(self, x: nat, y: nat) -> int {
        (y * self.width + x) as int
    }

    /// The canvas after a write: unchanged when `(x, y)` lies outside it.
    pub open spec fn put(self, x: nat, y: nat, red: u8, green: u8, blue: u8) -> Canvas {
        if self.contains(x, y) {
            Canvas { cells: self.cells.update(self.index_of(x, y), pack(red, green, blue)), ..self }
        } else {
            self
        }
    }

    /// The colour at `(x, y)`; meaningful only inside the canvas.
    pub open spec fn get(self, x: nat, y: nat) -> (u8, u8, u8) {
        unpack(self.cells[self.index_of(x, y)])
    }
}

/// Unpacking a packed colour gives the colour back.
pub proof fn lemma_unpack_pack(red: u8, green: u8, blue: u8)
    ensures
        unpack(pack(red, green, blue)) == (red, green, blue),
{
}

/// Inside a well-formed canvas every coordinate has its own cell.
pub proof fn lemma_index_in_range(c: Canvas, x: nat, y: nat)
    requires
        c.wf(),
        c.contains(x, y),
    ensures
        0 <= y * c.width <= c.index_of(x, y) < c.cells.len(),
{
    assert(0 <= y * c.width && y * c.width + x < c.width * c.height) by (nonlinear_arith)
        requires
            x < c.width,
            y < c.height,
    ;
}

/// A colour written inside the canvas is the colour read back at the same
/// coordinate.
pub proof fn lemma_put_then_get(c: Canvas, x: nat, y: nat, red: u8, green: u8, blue: u8)
    requires
        c.wf(),
        c.contains(x, y),
    ensures
        c.put(x, y, red, green, blue).wf(),
        c.put(x, y, red, green, blue).get(x, y) == (red, green, blue),
{
    lemma_index_in_range(c, x, y);
    lemma_unpack_pack(red, green, blue);
}

/// A write inside the canvas leaves every other coordinate as it was.
pub proof fn lemma_put_keeps_others(
    c: Canvas,
    x: nat,
    y: nat,
    red: u8,
    green: u8,
    blue: u8,
    x2: nat,
    y2: nat,
)
    requires
        c.wf(),
        c.contains(x, y),
        c.contains(x2, y2),
        x2 != x || y2 != y,
    ensures
        c.put(x, y, red, green, blue).get(x2, y2) == c.get(x2, y2),
{
    lemma_index_in_range(c, x, y);
    lemma_index_in_range(c, x2, y2);
    assert(c.index_of(x, y) != c.index_of(x2, y2)) by (nonlinear_arith)
        requires
            x < c.width,
            x2 < c.width,
            x2 != x || y2 != y,
            c.index_of(x, y) == y * c.width + x,
            c.index_of(x2, y2) == y2 * c.width + x2,
    ;
}

/// A write outside the canvas changes nothing.
pub proof fn lemma_put_outside_is_noop(c: Canvas, x: nat, y: nat, red: u8, green: u8, blue: u8)
    requires
        x >= c.width || y >= c.height,
    ensures
        c.put(x, y, red, green, blue) == c,
{
}

/// `u32::to_ne_bytes`: the bytes of a word in this machine's own order, which
/// is one of the two orders that `word_bytes` describes.
#[verifier::external_body]
fn native_bytes(word: u32) -> (bytes: [u8; 4])
    ensures
        bytes@ == word_bytes(word, true) || bytes@ == word_bytes(word, false),
{
    word.to_ne_bytes()
}

/// A fixed-size pixel store. Dimensions never change after construction.
/// A write takes the store exclusively, so what is read back is what was
/// written last; a painter and its viewers that share one store take turns.
pub struct Framebuffer {
    width: usize,
    height: usize,
    cells: Vec<u32>,
}

impl View for Framebuffer {
    type V = Canvas;

    closed spec fn view(&self) -> Canvas {
        Canvas { width: self.width as nat, height: self.height as nat, cells: self.cells@ }
    }
}

impl Framebuffer {
    /// One cell per coordinate, and the whole region, four bytes per cell,
    /// can be measured in `usize`.
    #[verifier::type_invariant]
    pub open spec fn wf(self) -> bool {
        self@.wf() && 4 * (self@.width * self@.height) <= usize::MAX
    }

    /// A framebuffer of the given size with every cell zero.
    pub fn new(width: usize, height: usize) -> (fb: Self)
        requires
            4 * (width * height) <= usize::MAX,
        ensures
            fb.wf(),
            fb@.width == width,
            fb@.height == height,
            fb@.cells == Seq::new((width * height) as nat, |i: int| 0u32),
    {
        let ncells: usize = width * height;
        let cells: Vec<u32> = vec![0u32; ncells];
        assert(cells@ =~= Seq::new(ncells as nat, |i: int| 0u32));
        Framebuffer { width, height, cells }
    }

    pub fn width(&self) -> (w: usize)
        ensures
            w == self@.width,
    {
        self.width
    }

    pub fn height(&self) -> (h: usize)
        ensures
            h == self@.height,
    {
        self.height
    }

    /// Writes a colour at `(x, y)`. A coordinate outside the framebuffer is
    /// ignored.
    pub fn put(&mut self, x: usize, y: usize, red: u8, green: u8, blue: u8)
        ensures
            final(self)@ == old(self)@.put(x as nat, y as nat, red, green, blue),
    {
        proof {
            use_type_invariant(&*self);
        }
        if x >= self.width || y >= self.height {
            return ;
        }
        proof {
            lemma_index_in_range(self@, x as nat, y as nat);
        }
        let pix: u32 = (red as u32) * 65536 + (green as u32) * 256 + (blue as u32);
        let target: usize = y * self.width + x;
        self.cells[target] = pix;
    }

    /// Reads the colour at `(x, y)`, which must lie inside the framebuffer.
    pub fn get(&self, x: usize, y: usize) -> (colour: (u8, u8, u8))
        requires
            x < self@.width,
            y < self@.height,
        ensures
            colour == self@.get(x as nat, y as nat),
    {
        proof {
            use_type_invariant(self);
            lemma_index_in_range(self@, x as nat, y as nat);
        }
        let target: usize = y * self.width + x;
        let pix: u32 = self.cells[target];
        (((pix / 65536) % 256) as u8, ((pix / 256) % 256) as u8, (pix % 256) as u8)
    }

    /// A snapshot of the whole region as it lies in memory: four bytes per
    /// cell in row-major order, each cell in the machine's byte order.
    pub fn copy_all(&self) -> (bytes: Vec<u8>)
        ensures
            bytes@.len() == 4 * (self@.width * self@.height),
            bytes@ == image(self@.cells, true) || bytes@ == image(self@.cells, false),
    {
        proof {
            use_type_invariant(self);
        }
        // Which end of a word comes first in memory shows in the word 1.
        let probe = native_bytes(1u32);
        let little: bool = probe[0] == 1u8;
        let n: usize = self.cells.len();
        let mut bytes: Vec<u8> = Vec::new();
        let mut i: usize = 0;
        while i < n
            invariant
                n == self.cells@.len(),
                4 * n <= usize::MAX,
                i <= n,
                bytes@ == image(self.cells@.take(i as int), little),
            decreases n - i,
        {
            let cell: u32 = self.cells[i];
            let b0: u8 = (cell % 256) as u8;
            let b1: u8 = ((cell / 256) % 256) as u8;
            let b2: u8 = ((cell / 65536) % 256) as u8;
            let b3: u8 = (cell / 16777216) as u8;
            if little {
                bytes.push(b0);
                bytes.push(b1);
                bytes.push(b2);
                bytes.push(b3);
            } else {
                bytes.push(b3);
                bytes.push(b2);
                bytes.push(b1);
                bytes.push(b0);
            }
            i = i + 1;
            assert(bytes@ =~= image(self.cells@.take(i as int), little));
        }
        assert(self.cells@.take(n as int) =~= self.cells@);
        bytes
    }
}

} // verus!
