//! The identicon pipeline: a username is hashed, the digest drives a color
//! and a mirrored grid, the grid is filtered to its even cells, each
//! surviving cell is mapped to a pixel region, and the regions' corner
//! pixels are painted onto a canvas.
//!
//! Each stage consumes the builder and returns a new one with the next
//! field populated, or an error when a prerequisite stage has not run.

use vstd::prelude::*;

use crate::canvas::Canvas;
use crate::hashing::sha512_digest;
use crate::hashing::sha512_of;
use crate::identicon::Identicon;
use crate::SIZE;
use crate::SQUARES;

verus! {

/// Side length of one grid cell in pixels: SIZE / SQUARES, rounded to the
/// nearest integer (halves away from zero); `lemma_square_size` relates the
/// value to that quotient.
pub const SQUARE_SIZE: u8 = 2;

/// SQUARE_SIZE is the quotient SIZE / SQUARES rounded to the nearest
/// integer, written with integer arithmetic: rounding half away from zero
/// is floor((2 * SIZE + SQUARES) / (2 * SQUARES)) for non-negative values.
pub proof fn lemma_square_size()
    ensures
        SQUARE_SIZE as int == (2 * (SIZE as int) + (SQUARES as int)) / (2 * (SQUARES as int)),
{
    assert(2 * (SIZE as int) + (SQUARES as int) == 50);
    assert(2 * (SQUARES as int) == 20);
    assert((2 * (SIZE as int) + (SQUARES as int)) / (2 * (SQUARES as int)) == 50int / 20int);
}

/// How a pipeline stage can fail.
#[derive(Clone, Copy, Debug, PartialEq, Eq, Structural)]
pub enum IdenticonError {
    /// The digest is too short for an extraction step.
    InvalidDigest,
    /// A stage ran before its prerequisite stage populated the state.
    PipelineOrderError,
    /// The renderer ran before a color was picked.
    MissingColor,
    /// The renderer ran before the pixel map was built.
    MissingPixelMap,
}

/// A pixel coordinate on the canvas.
#[derive(Clone, Copy, Debug, PartialEq, Eq, Structural)]
pub struct Point {
    pub x: u8,
    pub y: u8,
}

/// The color derived from a digest: its last three bytes, as (R, G, B).
pub open spec fn color_of(digest: Seq<u8>) -> Seq<u8> {
    digest.subrange(digest.len() - 3, digest.len() as int)
}

/// Half the grid width: the number of digest bytes the grid draws on.
pub open spec fn grid_half() -> int {
    SQUARES as int / 2
}

/// The mirrored grid derived from a digest: the first half of the grid is
/// the digest's first `grid_half()` bytes in reverse order, the second half
/// is the same bytes in original order, so the grid is left-right symmetric.
pub open spec fn mirrored_grid_of(digest: Seq<u8>) -> Seq<u8> {
    Seq::new(
        SQUARES as nat,
        |i: int|
            if i < grid_half() {
                digest[grid_half() - 1 - i]
            } else {
                digest[i - grid_half()]
            },
    )
}

/// The even-valued cells of a grid, in their original order.
pub open spec fn filter_even(s: Seq<u8>) -> Seq<u8>
    decreases s.len(),
{
    if s.len() == 0 {
        Seq::empty()
    } else {
        let rest = filter_even(s.drop_last());
        if s.last() % 2 == 0 {
            rest.push(s.last())
        } else {
            rest
        }
    }
}

/// The x coordinate of the cell at position `i` of the (filtered) grid.
pub open spec fn horizontal_of(i: int) -> int {
    (i % (SQUARES as int)) * (SQUARE_SIZE as int)
}

/// The y coordinate of the cell at position `i` of the (filtered) grid.
pub open spec fn vertical_of(i: int) -> int {
    (i / (SQUARES as int)) * (SQUARE_SIZE as int)
}

/// Entry `i` of a pixel map holds the corner points of the region computed
/// from position `i`: top-left and bottom-right, one cell apart.
pub open spec fn region_correct(m: Seq<(Point, Point)>, i: int) -> bool {
    &&& m[i].0.x as int == horizontal_of(i)
    &&& m[i].0.y as int == vertical_of(i)
    &&& m[i].1.x as int == horizontal_of(i) + SQUARE_SIZE as int
    &&& m[i].1.y as int == vertical_of(i) + SQUARE_SIZE as int
}

/// A complete pixel map for a grid of `n` cells.
pub open spec fn pixel_map_of_len(m: Seq<(Point, Point)>, n: int) -> bool {
    &&& m.len() == n
    &&& forall|i: int| 0 <= i < n ==> #[trigger] region_correct(m, i)
}

/// Whether one region's corner points include the pixel (x, y).
pub open spec fn corner_hits(pp: (Point, Point), x: int, y: int) -> bool {
    (pp.0.x as int == x && pp.0.y as int == y) || (pp.1.x as int == x && pp.1.y as int == y)
}

/// Whether any region of the map paints the pixel (x, y).
pub open spec fn painted(map: Seq<(Point, Point)>, x: int, y: int) -> bool {
    exists|j: int| 0 <= j < map.len() && #[trigger] corner_hits(map[j], x, y)
}

/// The pipeline state: each stage fills in one more field.
#[derive(Debug)]
pub struct ImageBuilder {
    pub username: String,
    hash: Option<Vec<u8>>,
    color: Option<Vec<u8>>,
    grid: Option<Vec<u8>>,
    pixel_map: Option<Vec<(Point, Point)>>,
    img: Option<Canvas>,
}

impl ImageBuilder {
    /// The username the pipeline was started with.
    pub closed spec fn spec_username(self) -> Seq<char> {
        self.username@
    }

    /// The digest, if the hashing stage has run.
    pub closed spec fn spec_hash(self) -> Option<Seq<u8>> {
        match self.hash {
            Some(h) => Some(h@),
            None => None,
        }
    }

    /// The color, if the color stage has run.
    pub closed spec fn spec_color(self) -> Option<Seq<u8>> {
        match self.color {
            Some(c) => Some(c@),
            None => None,
        }
    }

    /// The grid, if the grid stage has run.
    pub closed spec fn spec_grid(self) -> Option<Seq<u8>> {
        match self.grid {
            Some(g) => Some(g@),
            None => None,
        }
    }

    /// The pixel map, if the mapping stage has run.
    pub closed spec fn spec_pixel_map(self) -> Option<Seq<(Point, Point)>> {
        match self.pixel_map {
            Some(m) => Some(m@),
            None => None,
        }
    }

    /// The canvas, if the rendering stage has run.
    pub closed spec fn spec_img(self) -> Option<Canvas> {
        self.img
    }

    /// Invariants every stage preserves: a color always has exactly three
    /// components, a grid never exceeds SQUARES cells, and a canvas is a
    /// complete pixel buffer.
    pub open spec fn wf(self) -> bool {
        &&& (self.spec_color() matches Some(c) ==> c.len() == 3)
        &&& (self.spec_grid() matches Some(g) ==> g.len() <= SQUARES as int)
        &&& (self.spec_img() matches Some(c) ==> c.wf())
    }

    /// A fresh pipeline for a username: no stage has run yet.
    pub fn new(username: String) -> (r: Self)
        ensures
            r.spec_username() == username@,
            r.spec_hash() is None,
            r.spec_color() is None,
            r.spec_grid() is None,
            r.spec_pixel_map() is None,
            r.spec_img() is None,
            r.wf(),
    {
        Self { username, hash: None, color: None, grid: None, pixel_map: None, img: None }
    }

    /// Hash the username into a fixed 64-byte digest. This stage cannot
    /// fail; it resets every later stage's field except the color.
    pub fn hash_username(self) -> (r: Self)
        requires
            self.wf(),
        ensures
            r.spec_username() == self.spec_username(),
            r.spec_hash() == Some(sha512_of(self.spec_username())),
            sha512_of(self.spec_username()).len() == 64,
            r.spec_color() == self.spec_color(),
            r.spec_grid() is None,
            r.spec_pixel_map() is None,
            r.spec_img() is None,
            r.wf(),
    {
        let ImageBuilder { username, hash: _, color, grid: _, pixel_map: _, img: _ } = self;
        let digest = sha512_digest(&username);
        Self { username, hash: Some(digest), color, grid: None, pixel_map: None, img: None }
    }

    /// Pick the color: the digest's last three bytes, as (R, G, B).
    pub fn pick_color(self) -> (r: Result<Self, IdenticonError>)
        requires
            self.wf(),
        ensures
            self.spec_hash() is None ==> (r matches Err(e) && e
                == IdenticonError::PipelineOrderError),
            self.spec_hash() matches Some(h) ==> h.len() < 3 ==> (r matches Err(e) && e
                == IdenticonError::InvalidDigest),
            self.spec_hash() matches Some(h) ==> h.len() >= 3 ==> (r matches Ok(b) && {
                &&& b.spec_username() == self.spec_username()
                &&& b.spec_hash() == self.spec_hash()
                &&& b.spec_color() == Some(color_of(h))
                &&& b.spec_grid() is None
                &&& b.spec_pixel_map() is None
                &&& b.spec_img() is None
                &&& b.wf()
            }),
    {
        let ImageBuilder { username, hash, color: _, grid: _, pixel_map: _, img: _ } = self;
        let hash = match hash {
            Some(h) => h,
            None => {
                return Err(IdenticonError::PipelineOrderError);
            },
        };
        if hash.len() < 3 {
            return Err(IdenticonError::InvalidDigest);
        }
        let length = hash.len();
        let red = hash[length - 3];
        let green = hash[length - 2];
        let blue = hash[length - 1];
        let mut color: Vec<u8> = Vec::new();
        color.push(red);
        color.push(green);
        color.push(blue);
        proof {
            assert(color@ =~= color_of(hash@));
        }
        Ok(
            Self {
                username,
                hash: Some(hash),
                color: Some(color),
                grid: None,
                pixel_map: None,
                img: None,
            },
        )
    }

    /// Build the mirrored grid: the digest's first half-row of bytes,
    /// written once in reverse and once in original order, so that the grid
    /// is left-right symmetric.
    pub fn set_grid(self) -> (r: Result<Self, IdenticonError>)
        requires
            self.wf(),
        ensures
            self.spec_hash() is None ==> (r matches Err(e) && e
                == IdenticonError::PipelineOrderError),
            self.spec_hash() matches Some(h) ==> h.len() < grid_half() ==> (r matches Err(e) && e
                == IdenticonError::InvalidDigest),
            self.spec_hash() matches Some(h) ==> h.len() >= grid_half() ==> (r matches Ok(b) && {
                &&& b.spec_username() == self.spec_username()
                &&& b.spec_hash() == self.spec_hash()
                &&& b.spec_color() == self.spec_color()
                &&& b.spec_grid() == Some(mirrored_grid_of(h))
                &&& mirrored_grid_of(h).len() == SQUARES as int
                &&& b.spec_pixel_map() is None
                &&& b.spec_img() is None
                &&& b.wf()
            }),
    {
        let ImageBuilder { username, hash, color, grid: _, pixel_map: _, img: _ } = self;
        let hash = match hash {
            Some(h) => h,
            None => {
                return Err(IdenticonError::PipelineOrderError);
            },
        };
        let half: usize = (SQUARES / 2) as usize;
        if hash.len() < half {
            return Err(IdenticonError::InvalidDigest);
        }
        let mut result: Vec<u8> = Vec::new();
        let mut i: usize = 0;
        while i < half
            invariant
                i <= half,
                half == grid_half(),
                hash@.len() >= half,
                result@.len() == i,
                forall|j: int| 0 <= j < i ==> result@[j] == hash@[grid_half() - 1 - j],
            decreases half - i,
        {
            result.push(hash[half - 1 - i]);
            i = i + 1;
        }
        let mut i2: usize = 0;
        while i2 < half
            invariant
                i2 <= half,
                half == grid_half(),
                hash@.len() >= half,
                result@.len() == half + i2,
                forall|j: int| 0 <= j < half ==> result@[j] == hash@[grid_half() - 1 - j],
                forall|j: int| half <= j < half + i2 ==> result@[j] == hash@[j - grid_half()],
            decreases half - i2,
        {
            result.push(hash[i2]);
            i2 = i2 + 1;
        }
        proof {
            assert(result@ =~= mirrored_grid_of(hash@));
        }
        Ok(
            Self {
                username,
                hash: Some(hash),
                color,
                grid: Some(result),
                pixel_map: None,
                img: None,
            },
        )
    }

    /// Keep only the even-valued grid cells, preserving their order; these
    /// are the cells that will be painted.
    pub fn filter_odd_squares(self) -> (r: Result<Self, IdenticonError>)
        requires
            self.wf(),
        ensures
            self.spec_grid() is None ==> (r matches Err(e) && e
                == IdenticonError::PipelineOrderError),
            self.spec_grid() matches Some(g) ==> (r matches Ok(b) && {
                &&& b.spec_username() == self.spec_username()
                &&& b.spec_hash() == self.spec_hash()
                &&& b.spec_color() == self.spec_color()
                &&& b.spec_grid() == Some(filter_even(g))
                &&& b.spec_pixel_map() is None
                &&& b.spec_img() is None
                &&& b.wf()
            }),
    {
        let ImageBuilder { username, hash, color, grid, pixel_map: _, img: _ } = self;
        let grid = match grid {
            Some(g) => g,
            None => {
                return Err(IdenticonError::PipelineOrderError);
            },
        };
        let mut filtered: Vec<u8> = Vec::new();
        let mut i: usize = 0;
        while i < grid.len()
            invariant
                i <= grid@.len(),
                filtered@ == filter_even(grid@.take(i as int)),
            decreases grid@.len() - i,
        {
            let item = grid[i];
            proof {
                assert(grid@.take(i + 1).drop_last() =~= grid@.take(i as int));
                assert(grid@.take(i + 1).last() == grid@[i as int]);
            }
            if item % 2 == 0 {
                filtered.push(item);
            }
            i = i + 1;
        }
        proof {
            assert(grid@.take(grid@.len() as int) =~= grid@);
            lemma_filter_even_len(grid@);
        }
        Ok(
            Self {
                username,
                hash,
                color,
                grid: Some(filtered),
                pixel_map: None,
                img: None,
            },
        )
    }

    /// Map each (post-filter) grid position to its pixel region: the
    /// top-left and bottom-right corner of the cell at that position.
    pub fn build_pixel_map(self) -> (r: Result<Self, IdenticonError>)
        requires
            self.wf(),
        ensures
            self.spec_grid() is None ==> (r matches Err(e) && e
                == IdenticonError::PipelineOrderError),
            self.spec_grid() matches Some(g) ==> (r matches Ok(b) && {
                &&& b.spec_username() == self.spec_username()
                &&& b.spec_hash() == self.spec_hash()
                &&& b.spec_color() == self.spec_color()
                &&& b.spec_grid() == self.spec_grid()
                &&& b.spec_pixel_map() matches Some(m) && pixel_map_of_len(m, g.len() as int)
                &&& b.spec_img() is None
                &&& b.wf()
            }),
    {
        let ImageBuilder { username, hash, color, grid, pixel_map: _, img: _ } = self;
        let grid = match grid {
            Some(g) => g,
            None => {
                return Err(IdenticonError::PipelineOrderError);
            },
        };
        let mut pixel_map: Vec<(Point, Point)> = Vec::new();
        let mut i: usize = 0;
        while i < grid.len()
            invariant
                i <= grid@.len(),
                grid@.len() <= SQUARES as int,
                pixel_map@.len() == i,
                forall|j: int| 0 <= j < i ==> #[trigger] region_correct(pixel_map@, j),
            decreases grid@.len() - i,
        {
            let horizontal = ((i as u8) % SQUARES) * SQUARE_SIZE;
            let vertical = ((i as u8) / SQUARES) * SQUARE_SIZE;
            let top_left = Point { x: horizontal, y: vertical };
            let bottom_right = Point { x: horizontal + SQUARE_SIZE, y: vertical + SQUARE_SIZE };
            let ghost m0 = pixel_map@;
            pixel_map.push((top_left, bottom_right));
            proof {
                assert((i as u8) as int == i as int);
                assert forall|j: int|
                    0 <= j < i + 1 implies #[trigger] region_correct(pixel_map@, j) by {
                    if j < i as int {
                        assert(region_correct(m0, j));
                        assert(pixel_map@[j] == m0[j]);
                    } else {
                        assert(pixel_map@[j] == (top_left, bottom_right));
                    }
                }
            }
            i = i + 1;
        }
        Ok(
            Self {
                username,
                hash,
                color,
                grid: Some(grid),
                pixel_map: Some(pixel_map),
                img: None,
            },
        )
    }

    /// Paint the picked color at the two corner points of every mapped
    /// region, on a blank canvas; every other pixel stays black.
    pub fn draw_image(self) -> (r: Result<Self, IdenticonError>)
        requires
            self.wf(),
        ensures
            self.spec_color() is None ==> (r matches Err(e) && e == IdenticonError::MissingColor),
            self.spec_color() is Some && self.spec_pixel_map() is None ==> (r matches Err(e) && e
                == IdenticonError::MissingPixelMap),
            self.spec_color() matches Some(c) ==> self.spec_pixel_map() matches Some(m) ==> (
            r matches Ok(b) && {
                &&& b.spec_username() == self.spec_username()
                &&& b.spec_hash() == self.spec_hash()
                &&& b.spec_color() == self.spec_color()
                &&& b.spec_grid() == self.spec_grid()
                &&& b.spec_pixel_map() is None
                &&& b.spec_img() matches Some(canvas) && canvas.wf() && (forall|x: int, y: int|
                    0 <= x < SIZE as int && 0 <= y < SIZE as int ==> canvas.at(x, y) == (
                    if painted(m, x, y) {
                        (c[0], c[1], c[2])
                    } else {
                        (0u8, 0u8, 0u8)
                    }))
                &&& b.wf()
            }),
    {
        let ImageBuilder { username, hash, color, grid, pixel_map, img: _ } = self;
        let color = match color {
            Some(c) => c,
            None => {
                return Err(IdenticonError::MissingColor);
            },
        };
        let map = match pixel_map {
            Some(m) => m,
            None => {
                return Err(IdenticonError::MissingPixelMap);
            },
        };
        let red = color[0];
        let green = color[1];
        let blue = color[2];
        let mut canvas = Canvas::new();
        let mut k: usize = 0;
        while k < map.len()
            invariant
                k <= map@.len(),
                canvas.wf(),
                color@.len() == 3,
                red == color@[0] && green == color@[1] && blue == color@[2],
                forall|x: int, y: int|
                    0 <= x < SIZE as int && 0 <= y < SIZE as int ==> canvas.at(x, y) == (
                    if painted(map@.take(k as int), x, y) {
                        (red, green, blue)
                    } else {
                        (0u8, 0u8, 0u8)
                    }),
            decreases map@.len() - k,
        {
            let ghost canvas0 = canvas;
            let (top_left, bottom_right) = map[k];
            if top_left.x < SIZE && top_left.y < SIZE {
                canvas.set_pixel(top_left.x, top_left.y, red, green, blue);
            }
            if bottom_right.x < SIZE && bottom_right.y < SIZE {
                canvas.set_pixel(bottom_right.x, bottom_right.y, red, green, blue);
            }
            proof {
                assert forall|x: int, y: int|
                    0 <= x < SIZE as int && 0 <= y < SIZE as int implies canvas.at(x, y) == (
                    if painted(map@.take(k + 1), x, y) {
                        (red, green, blue)
                    } else {
                        (0u8, 0u8, 0u8)
                    }) by {
                    lemma_painted_step(map@, k as int, x, y);
                }
            }
            k = k + 1;
        }
        proof {
            assert(map@.take(map@.len() as int) =~= map@);
        }
        Ok(
            Self {
                username,
                hash,
                color: Some(color),
                grid,
                pixel_map: None,
                img: Some(canvas),
            },
        )
    }

    /// Pair the username with the finished canvas.
    pub fn build(self) -> (r: Result<Identicon, IdenticonError>)
        requires
            self.wf(),
        ensures
            self.spec_img() is None ==> (r matches Err(e) && e
                == IdenticonError::PipelineOrderError),
            self.spec_img() matches Some(c) ==> (r matches Ok(id) && id.spec_username()
                == self.spec_username() && id.spec_img() == c),
    {
        let ImageBuilder { username, hash: _, color: _, grid: _, pixel_map: _, img } = self;
        let img = match img {
            Some(c) => c,
            None => {
                return Err(IdenticonError::PipelineOrderError);
            },
        };
        Ok(Identicon::new(username, img))
    }

    /// The digest, for inspection.
    pub fn hash(&self) -> (r: &Option<Vec<u8>>)
        ensures
            r matches Some(h) ==> self.spec_hash() == Some(h@),
            r is None ==> self.spec_hash() is None,
    {
        &self.hash
    }

    /// The color, for inspection.
    pub fn color(&self) -> (r: &Option<Vec<u8>>)
        ensures
            r matches Some(c) ==> self.spec_color() == Some(c@),
            r is None ==> self.spec_color() is None,
    {
        &self.color
    }

    /// The grid, for inspection.
    pub fn grid(&self) -> (r: &Option<Vec<u8>>)
        ensures
            r matches Some(g) ==> self.spec_grid() == Some(g@),
            r is None ==> self.spec_grid() is None,
    {
        &self.grid
    }

    /// The pixel map, for inspection.
    pub fn pixel_map(&self) -> (r: &Option<Vec<(Point, Point)>>)
        ensures
            r matches Some(m) ==> self.spec_pixel_map() == Some(m@),
            r is None ==> self.spec_pixel_map() is None,
    {
        &self.pixel_map
    }

    /// The canvas, for inspection.
    pub fn img(&self) -> (r: &Option<Canvas>)
        ensures
            r matches Some(c) ==> self.spec_img() == Some(*c),
            r is None ==> self.spec_img() is None,
    {
        &self.img
    }
}

/// The filter keeps at most as many cells as it was given.
pub proof fn lemma_filter_even_len(s: Seq<u8>)
    ensures
        filter_even(s).len() <= s.len(),
    decreases s.len(),
{
    if s.len() > 0 {
        lemma_filter_even_len(s.drop_last());
    }
}

/// Appending an even value to a grid appends it to the filtered grid;
/// appending an odd value leaves the filtered grid unchanged.
proof fn lemma_filter_even_push(s: Seq<u8>, v: u8)
    ensures
        v % 2 == 0 ==> filter_even(s.push(v)) == filter_even(s).push(v),
        v % 2 != 0 ==> filter_even(s.push(v)) == filter_even(s),
{
    assert(s.push(v).drop_last() =~= s);
    assert(s.push(v).last() == v);
}

/// Filtering is idempotent: a grid of even cells filters to itself.
pub proof fn lemma_filter_even_idempotent(s: Seq<u8>)
    ensures
        filter_even(filter_even(s)) == filter_even(s),
    decreases s.len(),
{
    if s.len() == 0 {
        assert(filter_even(s) =~= Seq::<u8>::empty());
    } else {
        lemma_filter_even_idempotent(s.drop_last());
        if s.last() % 2 == 0 {
            lemma_filter_even_push(filter_even(s.drop_last()), s.last());
            assert(filter_even(s) == filter_even(s.drop_last()).push(s.last()));
        } else {
            assert(filter_even(s) == filter_even(s.drop_last()));
        }
    }
}

/// The grid is symmetric: cell `i` always equals cell `SQUARES - 1 - i`.
pub proof fn lemma_grid_symmetric(digest: Seq<u8>)
    requires
        digest.len() >= grid_half(),
    ensures
        forall|i: int|
            0 <= i < SQUARES as int ==> #[trigger] mirrored_grid_of(digest)[i]
                == mirrored_grid_of(digest)[SQUARES as int - 1 - i],
{
}

/// The color always has exactly three components, each a byte in [0, 255].
pub proof fn lemma_color_components(digest: Seq<u8>)
    requires
        digest.len() >= 3,
    ensures
        color_of(digest).len() == 3,
        forall|i: int| 0 <= i < 3 ==> 0 <= #[trigger] color_of(digest)[i] <= 255,
{
}

/// Both corner points of region `i` lie within [0, SIZE] on both axes.
pub open spec fn region_in_bounds(m: Seq<(Point, Point)>, i: int) -> bool {
    &&& m[i].0.x as int <= SIZE as int
    &&& m[i].0.y as int <= SIZE as int
    &&& m[i].1.x as int <= SIZE as int
    &&& m[i].1.y as int <= SIZE as int
}

/// Every coordinate a pixel map computes lies within [0, SIZE].
pub proof fn lemma_pixel_map_in_bounds(m: Seq<(Point, Point)>, n: int)
    requires
        0 <= n <= SQUARES as int,
        pixel_map_of_len(m, n),
    ensures
        forall|i: int| 0 <= i < m.len() ==> #[trigger] region_in_bounds(m, i),
{
    assert forall|i: int| 0 <= i < m.len() implies #[trigger] region_in_bounds(m, i) by {
        assert(region_correct(m, i));
        assert(i % (SQUARES as int) == i);
        assert(i / (SQUARES as int) == 0);
    }
}

/// Extending the map by one region paints a pixel exactly when the shorter
/// map painted it or the new region's corners hit it.
proof fn lemma_painted_step(map: Seq<(Point, Point)>, k: int, x: int, y: int)
    requires
        0 <= k < map.len(),
    ensures
        painted(map.take(k + 1), x, y) <==> (painted(map.take(k), x, y) || corner_hits(
            map[k],
            x,
            y,
        )),
{
    if painted(map.take(k + 1), x, y) {
        let j = choose|j: int|
            0 <= j < map.take(k + 1).len() && #[trigger] corner_hits(map.take(k + 1)[j], x, y);
        if j < k {
            assert(corner_hits(map.take(k)[j], x, y));
        } else {
            assert(corner_hits(map[k], x, y));
        }
    }
    if painted(map.take(k), x, y) {
        let j = choose|j: int|
            0 <= j < map.take(k).len() && #[trigger] corner_hits(map.take(k)[j], x, y);
        assert(corner_hits(map.take(k + 1)[j], x, y));
    }
    if corner_hits(map[k], x, y) {
        assert(corner_hits(map.take(k + 1)[k], x, y));
    }
}

} // verus!
