//! A small square RGB pixel buffer. The renderer paints single pixels into
//! it; the buffer is later handed to an image encoder as plain bytes.

use vstd::prelude::*;

use crate::SIZE;

verus! {

/// A square RGB canvas of SIZE x SIZE pixels, stored as flat bytes in
/// row-major order, three bytes (red, green, blue) per pixel.
#[derive(Debug)]
pub struct Canvas {
    pixels: Vec<u8>,
}

/// Index of the first byte of pixel (x, y) in the flat buffer.
pub open spec fn pixel_index(x: int, y: int) -> int {
    3 * (y * (SIZE as int) + x)
}

impl View for Canvas {
    type V = Seq<u8>;

    closed spec fn view(&self) -> Seq<u8> {
        self.pixels@
    }
}

impl Canvas {
    /// The buffer holds exactly three bytes for each of the SIZE * SIZE pixels.
    pub open spec fn wf(self) -> bool {
        self@.len() == 3 * (SIZE as int) * (SIZE as int)
    }

    /// The (red, green, blue) value of pixel (x, y).
    pub open spec fn at(self, x: int, y: int) -> (u8, u8, u8) {
        (
            self@[pixel_index(x, y)],
            self@[pixel_index(x, y) + 1],
            self@[pixel_index(x, y) + 2],
        )
    }

    /// A blank canvas: every pixel is black, (0, 0, 0).
    pub fn new() -> (c: Canvas)
        ensures
            c.wf(),
            forall|x: int, y: int|
                0 <= x < SIZE as int && 0 <= y < SIZE as int ==> c.at(x, y) == (0u8, 0u8, 0u8),
    {
        let n: usize = 3 * (SIZE as usize) * (SIZE as usize);
        let mut pixels: Vec<u8> = Vec::new();
        let mut i: usize = 0;
        while i < n
            invariant
                i <= n,
                n == 3 * (SIZE as int) * (SIZE as int),
                pixels@.len() == i,
                forall|j: int| 0 <= j < i ==> pixels@[j] == 0u8,
            decreases n - i,
        {
            pixels.push(0);
            i = i + 1;
        }
        Canvas { pixels }
    }

    /// Paint one pixel; every other pixel keeps its value.
    pub fn set_pixel(&mut self, x: u8, y: u8, red: u8, green: u8, blue: u8)
        requires
            old(self).wf(),
            x < SIZE,
            y < SIZE,
        ensures
            final(self).wf(),
            final(self).at(x as int, y as int) == (red, green, blue),
            forall|x2: int, y2: int|
                0 <= x2 < SIZE as int && 0 <= y2 < SIZE as int && !(x2 == x as int && y2
                    == y as int) ==> final(self).at(x2, y2) == old(self).at(x2, y2),
    {
        let idx: usize = 3 * ((y as usize) * (SIZE as usize) + (x as usize));
        self.pixels.set(idx, red);
        self.pixels.set(idx + 1, green);
        self.pixels.set(idx + 2, blue);
    }

    /// The raw bytes, for an encoder to consume.
    pub fn bytes(&self) -> (r: &Vec<u8>)
        ensures
            r@ == self@,
    {
        &self.pixels
    }
}

/// Two well-formed canvases that agree on every pixel hold identical bytes:
/// the pixel grid determines the whole buffer, so a renderer whose contract
/// pins every pixel pins the output byte for byte.
pub proof fn lemma_canvas_bytes_determined(c1: Canvas, c2: Canvas)
    requires
        c1.wf(),
        c2.wf(),
        forall|x: int, y: int|
            0 <= x < SIZE as int && 0 <= y < SIZE as int ==> c1.at(x, y) == c2.at(x, y),
    ensures
        c1@ == c2@,
{
    assert forall|n: int| 0 <= n < c1@.len() implies c1@[n] == c2@[n] by {
        let p = n / 3;
        let x = p % (SIZE as int);
        let y = p / (SIZE as int);
        assert(0 <= x < SIZE as int);
        assert(0 <= y < SIZE as int);
        assert(pixel_index(x, y) == 3 * p);
        assert(n == 3 * p + n % 3);
        assert(c1.at(x, y) == c2.at(x, y));
        if n % 3 == 0 {
            assert(c1@[n] == c1.at(x, y).0 && c2@[n] == c2.at(x, y).0);
        } else if n % 3 == 1 {
            assert(c1@[n] == c1.at(x, y).1 && c2@[n] == c2.at(x, y).1);
        } else {
            assert(c1@[n] == c1.at(x, y).2 && c2@[n] == c2.at(x, y).2);
        }
    }
    assert(c1@ =~= c2@);
}

} // verus!
