//! The data behind the file formats: the saved grid of a canvas and its
//! reading back, the gzip framing of `.ptd` files, and PNG images.
//!
//! Reading and writing files, and JSON (de)serialisation of `SaveData`,
//! are left to the caller.

use crate::canvas::{spec_is_blank, spec_is_bounding_box, spec_pixel_at, Canvas};
use crate::color::Rgb;
use crate::command::{is_keyword, spec_is_keyword};
use crate::text::chars_of;
use vstd::prelude::*;

verus! {

/// The saved form of a canvas: the grid of its bounding box, row by row,
/// `None` for an empty pixel and `[r, g, b]` for a colour. The grid's origin
/// is the top-left corner of the bounding box.
pub struct SaveData {
    /// Format version, `1.0.0`.
    pub version: String,
    /// Grid width (bounding-box width).
    pub width: u16,
    /// Grid height (bounding-box height).
    pub height: u16,
    /// `pixels[y][x]`.
    pub pixels: Vec<Vec<Option<[u8; 3]>>>,
}

/// A saved grid as sequences.
pub open spec fn spec_grid_view(pixels: Seq<Vec<Option<[u8; 3]>>>) -> Seq<Seq<Option<[u8; 3]>>> {
    pixels.map_values(|row: Vec<Option<[u8; 3]>>| row@)
}

/// The grid cell for a canvas pixel.
pub open spec fn spec_cell(m: Map<(u16, u16), Rgb>, p: (u16, u16)) -> Option<[u8; 3]> {
    match spec_pixel_at(m, p) {
        Some(c) => Some([c.0, c.1, c.2]),
        None => None,
    }
}

/// The bounding box of a non-blank canvas model.
pub open spec fn spec_bounding_box_of(m: Map<(u16, u16), Rgb>) -> (u16, u16, u16, u16) {
    choose|bb: (u16, u16, u16, u16)| spec_is_bounding_box(m, bb)
}

/// Width, height and origin `(w, h, x0, y0)` of the saved grid: the
/// bounding box, or all zero for a blank canvas.
pub open spec fn spec_save_frame(m: Map<(u16, u16), Rgb>) -> (u16, u16, u16, u16) {
    if spec_is_blank(m) {
        (0, 0, 0, 0)
    } else {
        let bb = spec_bounding_box_of(m);
        ((bb.2 - bb.0 + 1) as u16, (bb.3 - bb.1 + 1) as u16, bb.0, bb.1)
    }
}

/// The saved grid of a canvas model: `h` rows of `w` cells, cell `(c, r)`
/// holding the pixel at `(x0 + c, y0 + r)`.
pub open spec fn spec_save_grid(m: Map<(u16, u16), Rgb>) -> Seq<Seq<Option<[u8; 3]>>> {
    let (w, h, x0, y0) = spec_save_frame(m);
    Seq::new(
        h as nat,
        |r: int| Seq::new(w as nat, |c: int| spec_cell(m, ((x0 + c) as u16, (y0 + r) as u16))),
    )
}

/// Saving is possible when the painted pixels span at most 65535 columns
/// and rows (wider boxes overflow the 16-bit width).
pub open spec fn spec_save_fits(m: Map<(u16, u16), Rgb>) -> bool {
    forall|p: (u16, u16), q: (u16, u16)|
        #[trigger] m.contains_key(p) && #[trigger] m.contains_key(q) ==> p.0 - q.0 <= 65534 && p.1
            - q.1 <= 65534
}

/// Two boxes that are both tight around the same pixels are equal.
pub proof fn lemma_bounding_box_unique(
    m: Map<(u16, u16), Rgb>,
    a: (u16, u16, u16, u16),
    b: (u16, u16, u16, u16),
)
    requires
        spec_is_bounding_box(m, a),
        spec_is_bounding_box(m, b),
    ensures
        a == b,
{
    let p0 = choose|p: (u16, u16)| #[trigger] m.contains_key(p) && p.0 == a.0;
    let p1 = choose|p: (u16, u16)| #[trigger] m.contains_key(p) && p.1 == a.1;
    let p2 = choose|p: (u16, u16)| #[trigger] m.contains_key(p) && p.0 == a.2;
    let p3 = choose|p: (u16, u16)| #[trigger] m.contains_key(p) && p.1 == a.3;
    let q0 = choose|p: (u16, u16)| #[trigger] m.contains_key(p) && p.0 == b.0;
    let q1 = choose|p: (u16, u16)| #[trigger] m.contains_key(p) && p.1 == b.1;
    let q2 = choose|p: (u16, u16)| #[trigger] m.contains_key(p) && p.0 == b.2;
    let q3 = choose|p: (u16, u16)| #[trigger] m.contains_key(p) && p.1 == b.3;
    assert(m.contains_key(p0) && m.contains_key(q0));
    assert(m.contains_key(p1) && m.contains_key(q1));
    assert(m.contains_key(p2) && m.contains_key(q2));
    assert(m.contains_key(p3) && m.contains_key(q3));
}

/// Whether a canvas can be saved (see `spec_save_fits`).
pub fn save_fits(canvas: &Canvas) -> (r: bool)
    ensures
        r == spec_save_fits(canvas@),
{
    let ghost m = canvas@;
    match canvas.bounding_box() {
        None => true,
        Some((min_x, min_y, max_x, max_y)) => {
            let bb = (min_x, min_y, max_x, max_y);
            proof {
                let p2 = choose|p: (u16, u16)| #[trigger] m.contains_key(p) && p.0 == bb.2;
                let p0 = choose|p: (u16, u16)| #[trigger] m.contains_key(p) && p.0 == bb.0;
                let p3 = choose|p: (u16, u16)| #[trigger] m.contains_key(p) && p.1 == bb.3;
                let p1 = choose|p: (u16, u16)| #[trigger] m.contains_key(p) && p.1 == bb.1;
                assert(m.contains_key(p2) && m.contains_key(p0));
                assert(m.contains_key(p3) && m.contains_key(p1));
            }
            max_x - min_x <= 65534 && max_y - min_y <= 65534
        },
    }
}

/// The grid of a canvas, as saved to a file.
pub fn save_data_from_canvas(canvas: &Canvas) -> (d: SaveData)
    requires
        spec_save_fits(canvas@),
    ensures
        d.version@ == "1.0.0"@,
        d.width == spec_save_frame(canvas@).0,
        d.height == spec_save_frame(canvas@).1,
        spec_grid_view(d.pixels@) == spec_save_grid(canvas@),
{
    proof {
        reveal_strlit("1.0.0");
    }
    let ghost m = canvas@;
    let (width, height, min_x, min_y) = match canvas.bounding_box() {
        Some((min_x, min_y, max_x, max_y)) => {
            proof {
                let bb = (min_x, min_y, max_x, max_y);
                lemma_bounding_box_unique(m, bb, spec_bounding_box_of(m));
                let p2 = choose|p: (u16, u16)| #[trigger] m.contains_key(p) && p.0 == bb.2;
                let p0 = choose|p: (u16, u16)| #[trigger] m.contains_key(p) && p.0 == bb.0;
                let p3 = choose|p: (u16, u16)| #[trigger] m.contains_key(p) && p.1 == bb.3;
                let p1 = choose|p: (u16, u16)| #[trigger] m.contains_key(p) && p.1 == bb.1;
                assert(m.contains_key(p2) && m.contains_key(p0));
                assert(m.contains_key(p3) && m.contains_key(p1));
                assert(p2.0 - p0.0 <= 65534);
                assert(p3.1 - p1.1 <= 65534);
            }
            (max_x - min_x + 1, max_y - min_y + 1, min_x, min_y)
        },
        None => (0u16, 0u16, 0u16, 0u16),
    };
    let ghost grid = spec_save_grid(m);
    assert(spec_save_frame(m) == (width, height, min_x, min_y));
    let mut pixels: Vec<Vec<Option<[u8; 3]>>> = Vec::new();
    let mut row: u16 = 0;
    while row < height
        invariant
            row <= height,
            grid == spec_save_grid(m),
            spec_save_frame(m) == (width, height, min_x, min_y),
            m == canvas@,
            spec_grid_view(pixels@) == grid.take(row as int),
            pixels@.len() == row,
            min_y as int + height as int <= 65536,
            min_x as int + width as int <= 65536,
        decreases height - row,
    {
        let mut row_data: Vec<Option<[u8; 3]>> = Vec::new();
        let mut col: u16 = 0;
        while col < width
            invariant
                col <= width,
                row < height,
                grid == spec_save_grid(m),
                spec_save_frame(m) == (width, height, min_x, min_y),
                m == canvas@,
                min_y as int + height as int <= 65536,
                min_x as int + width as int <= 65536,
                row_data@ == grid[row as int].take(col as int),
            decreases width - col,
        {
            let abs_x = min_x + col;
            let abs_y = min_y + row;
            let pixel = match canvas.get_pixel(abs_x, abs_y) {
                Some(c) => Some([c.0, c.1, c.2]),
                None => None,
            };
            row_data.push(pixel);
            col = col + 1;
            assert(row_data@ =~= grid[row as int].take(col as int));
        }
        assert(grid[row as int].take(col as int) =~= grid[row as int]);
        let ghost before = pixels@;
        pixels.push(row_data);
        assert(pixels@[row as int]@ == grid[row as int]);
        assert(pixels@.drop_last() == before);
        row = row + 1;
        assert(spec_grid_view(pixels@) =~= grid.take(row as int));
    }
    assert(grid.take(row as int) =~= grid);
    SaveData { version: "1.0.0".to_owned(), width, height, pixels }
}

/// The colour stored in a grid cell.
pub open spec fn spec_cell_color(a: [u8; 3]) -> Rgb {
    (a[0], a[1], a[2])
}

/// A canvas model after reading one saved row `y` into it: each filled
/// cell `x` paints the pixel `(x, y)`, both coordinates cut to 16 bits.
pub open spec fn spec_load_row(m: Map<(u16, u16), Rgb>, row: Seq<Option<[u8; 3]>>, y: int) -> Map<
    (u16, u16),
    Rgb,
>
    decreases row.len(),
{
    if row.len() == 0 {
        m
    } else {
        let before = spec_load_row(m, row.drop_last(), y);
        match row.last() {
            Some(a) => before.insert(
                (((row.len() - 1) % 65536) as u16, (y % 65536) as u16),
                spec_cell_color(a),
            ),
            None => before,
        }
    }
}

/// The canvas model read from a saved grid, rows in order from an empty
/// canvas.
pub open spec fn spec_load_grid(rows: Seq<Seq<Option<[u8; 3]>>>) -> Map<(u16, u16), Rgb>
    decreases rows.len(),
{
    if rows.len() == 0 {
        Map::empty()
    } else {
        spec_load_row(spec_load_grid(rows.drop_last()), rows.last(), rows.len() - 1)
    }
}

/// Reads a canvas from saved data: every filled cell `pixels[y][x]` paints
/// the pixel `(x, y)`.
pub fn canvas_from_save_data(data: &SaveData) -> (c: Canvas)
    ensures
        c@ == spec_load_grid(spec_grid_view(data.pixels@)),
{
    let ghost rows = spec_grid_view(data.pixels@);
    let mut canvas = Canvas::new();
    let mut y: usize = 0;
    while y < data.pixels.len()
        invariant
            y <= data.pixels.len(),
            rows == spec_grid_view(data.pixels@),
            canvas@ == spec_load_grid(rows.take(y as int)),
        decreases data.pixels.len() - y,
    {
        let row = &data.pixels[y];
        let ghost start = canvas@;
        assert(rows[y as int] == row@);
        let mut x: usize = 0;
        while x < row.len()
            invariant
                x <= row.len(),
                canvas@ == spec_load_row(start, row@.take(x as int), y as int),
            decreases row.len() - x,
        {
            assert(row@.take(x + 1).drop_last() =~= row@.take(x as int));
            match row[x] {
                Some(arr) => {
                    let color: Rgb = (arr[0], arr[1], arr[2]);
                    canvas.set_pixel((x % 65536) as u16, (y % 65536) as u16, Some(color));
                },
                None => {},
            }
            x = x + 1;
        }
        assert(row@.take(x as int) =~= row@);
        assert(rows.take(y + 1).drop_last() =~= rows.take(y as int));
        y = y + 1;
    }
    assert(rows.take(y as int) =~= rows);
    canvas
}

/// Reading one row `y` (of at most 65536 cells, `y` below 65536) adds
/// exactly the filled cells of that row to the model.
pub proof fn lemma_load_row(m: Map<(u16, u16), Rgb>, row: Seq<Option<[u8; 3]>>, y: int)
    requires
        row.len() <= 65536,
        0 <= y < 65536,
    ensures
        forall|p: (u16, u16)|
            #![trigger spec_load_row(m, row, y).contains_key(p)]
            spec_load_row(m, row, y).contains_key(p) <==> ((p.1 == y && p.0 < row.len() && row[p.0 as int] is Some)
                || m.contains_key(p)),
        forall|p: (u16, u16)|
            #![trigger spec_load_row(m, row, y)[p]]
            spec_load_row(m, row, y).contains_key(p) ==> spec_load_row(m, row, y)[p] == if p.1 == y && p.0 < row.len() && row[p.0 as int] is Some {
                spec_cell_color(row[p.0 as int]->0)
            } else {
                m[p]
            },
    decreases row.len(),
{
    if row.len() > 0 {
        let r = row.drop_last();
        lemma_load_row(m, r, y);
        let n = row.len() - 1;
        let key = (((row.len() - 1) % 65536) as u16, (y % 65536) as u16);
        assert(key.0 == n && key.1 == y);
        let before = spec_load_row(m, r, y);
        let after = spec_load_row(m, row, y);
        assert(after == match row.last() {
            Some(a) => before.insert(key, spec_cell_color(a)),
            None => before,
        });
        assert forall|p: (u16, u16)| #[trigger] after.contains_key(p) <==> ((p.1 == y && p.0 < row.len() && row[p.0 as int] is Some) || m.contains_key(p)) by {
            if p.0 < n {
                assert(row[p.0 as int] == r[p.0 as int]);
            }
            if p == key {
                assert(row[p.0 as int] == row.last());
            }
        }
        assert forall|p: (u16, u16)| #[trigger] after.contains_key(p) implies after[p] == if p.1 == y && p.0 < row.len() && row[p.0 as int] is Some {
            spec_cell_color(row[p.0 as int]->0)
        } else {
            m[p]
        } by {
            if p.0 < n {
                assert(row[p.0 as int] == r[p.0 as int]);
            }
            if p == key {
                assert(row[p.0 as int] == row.last());
            }
        }
    }
}

/// Whether every row of a grid has at most 65536 cells.
pub open spec fn spec_rows_fit(rows: Seq<Seq<Option<[u8; 3]>>>) -> bool {
    forall|i: int| 0 <= i < rows.len() ==> #[trigger] rows[i].len() <= 65536
}

/// A grid of at most 65536 rows of at most 65536 cells reads back as the
/// model holding exactly its filled cells.
pub proof fn lemma_load_grid(rows: Seq<Seq<Option<[u8; 3]>>>)
    requires
        rows.len() <= 65536,
        spec_rows_fit(rows),
    ensures
        forall|p: (u16, u16)|
            #![trigger spec_load_grid(rows).contains_key(p)]
            spec_load_grid(rows).contains_key(p) <==> (p.1 < rows.len() && p.0 < rows[p.1 as int].len()
                && rows[p.1 as int][p.0 as int] is Some),
        forall|p: (u16, u16)|
            #![trigger spec_load_grid(rows)[p]]
            spec_load_grid(rows).contains_key(p) ==> spec_load_grid(rows)[p] == spec_cell_color(
                rows[p.1 as int][p.0 as int]->0,
            ),
    decreases rows.len(),
{
    if rows.len() > 0 {
        let r = rows.drop_last();
        assert forall|i: int| 0 <= i < r.len() implies #[trigger] r[i].len() <= 65536 by {
            assert(r[i] == rows[i]);
        }
        lemma_load_grid(r);
        let y = rows.len() - 1;
        assert(rows[y].len() <= 65536);
        lemma_load_row(spec_load_grid(r), rows.last(), y);
        assert forall|p: (u16, u16)| #[trigger] spec_load_grid(rows).contains_key(p) <==> (p.1 < rows.len() && p.0 < rows[p.1 as int].len() && rows[p.1 as int][p.0 as int] is Some) by {
            if p.1 < y {
                assert(rows[p.1 as int] == r[p.1 as int]);
            }
        }
        assert forall|p: (u16, u16)| #[trigger] spec_load_grid(rows).contains_key(p) implies spec_load_grid(rows)[p] == spec_cell_color(rows[p.1 as int][p.0 as int]->0) by {
            if p.1 < y {
                assert(rows[p.1 as int] == r[p.1 as int]);
            }
        }
    }
}

/// Some pixel of a non-blank model has the least value of `f` (whose values
/// lie within plus or minus 65535), searching downwards from `k`.
pub proof fn lemma_least_exists(m: Map<(u16, u16), Rgb>, f: spec_fn((u16, u16)) -> int, k: int)
    requires
        forall|p: (u16, u16)| -65535 <= #[trigger] f(p) <= 65535,
        exists|p: (u16, u16)| #[trigger] m.contains_key(p) && f(p) <= k,
    ensures
        exists|p: (u16, u16)|
            #[trigger] m.contains_key(p) && forall|q: (u16, u16)| #[trigger] m.contains_key(q) ==> f(p) <= f(q),
    decreases k + 65536,
{
    let w = choose|p: (u16, u16)| #[trigger] m.contains_key(p) && f(p) <= k;
    if exists|p: (u16, u16)| #[trigger] m.contains_key(p) && f(p) <= k - 1 {
        lemma_least_exists(m, f, k - 1);
    } else {
        assert forall|q: (u16, u16)| #[trigger] m.contains_key(q) implies f(w) <= f(q) by {}
    }
}

/// A non-blank canvas model has a tight bounding box.
pub proof fn lemma_bounding_box_exists(m: Map<(u16, u16), Rgb>)
    requires
        !spec_is_blank(m),
    ensures
        spec_is_bounding_box(m, spec_bounding_box_of(m)),
{
    let w = choose|p: (u16, u16)| #[trigger] m.contains_key(p);
    let f0 = |p: (u16, u16)| p.0 as int;
    let f1 = |p: (u16, u16)| p.1 as int;
    let f2 = |p: (u16, u16)| -(p.0 as int);
    let f3 = |p: (u16, u16)| -(p.1 as int);
    assert(m.contains_key(w) && f0(w) <= 65535);
    assert(m.contains_key(w) && f1(w) <= 65535);
    assert(m.contains_key(w) && f2(w) <= 65535);
    assert(m.contains_key(w) && f3(w) <= 65535);
    lemma_least_exists(m, f0, 65535);
    lemma_least_exists(m, f1, 65535);
    lemma_least_exists(m, f2, 65535);
    lemma_least_exists(m, f3, 65535);
    let a = choose|p: (u16, u16)| #[trigger] m.contains_key(p) && forall|q: (u16, u16)| #[trigger] m.contains_key(q) ==> f0(p) <= f0(q);
    let b = choose|p: (u16, u16)| #[trigger] m.contains_key(p) && forall|q: (u16, u16)| #[trigger] m.contains_key(q) ==> f1(p) <= f1(q);
    let c = choose|p: (u16, u16)| #[trigger] m.contains_key(p) && forall|q: (u16, u16)| #[trigger] m.contains_key(q) ==> f2(p) <= f2(q);
    let d = choose|p: (u16, u16)| #[trigger] m.contains_key(p) && forall|q: (u16, u16)| #[trigger] m.contains_key(q) ==> f3(p) <= f3(q);
    let bb = (a.0, b.1, c.0, d.1);
    assert forall|p: (u16, u16)| #[trigger] m.contains_key(p) implies bb.0 <= p.0 <= bb.2 && bb.1 <= p.1 <= bb.3 by {
        assert(f0(a) <= f0(p));
        assert(f1(b) <= f1(p));
        assert(f2(c) <= f2(p));
        assert(f3(d) <= f3(p));
    }
    assert(m.contains_key(a) && a.0 == bb.0);
    assert(m.contains_key(b) && b.1 == bb.1);
    assert(m.contains_key(c) && c.0 == bb.2);
    assert(m.contains_key(d) && d.1 == bb.3);
    assert(spec_is_bounding_box(m, bb));
}

/// A canvas model moved so that `(x0, y0)` becomes the origin; pixels
/// left of or above it are dropped.
pub open spec fn spec_shift_to_origin(m: Map<(u16, u16), Rgb>, x0: u16, y0: u16) -> Map<(u16, u16), Rgb> {
    Map::new(
        |p: (u16, u16)| p.0 + x0 <= 65535 && p.1 + y0 <= 65535 && m.contains_key(((p.0 + x0) as u16, (p.1 + y0) as u16)),
        |p: (u16, u16)| m[((p.0 + x0) as u16, (p.1 + y0) as u16)],
    )
}

/// Reading back the saved grid of a canvas gives the canvas moved so that
/// the top-left corner of its bounding box is the origin: every pixel keeps
/// its colour and its place relative to the others.
pub proof fn law_load_inverts_save(m: Map<(u16, u16), Rgb>)
    requires
        spec_save_fits(m),
    ensures
        spec_load_grid(spec_save_grid(m)) == spec_shift_to_origin(
            m,
            spec_save_frame(m).2,
            spec_save_frame(m).3,
        ),
{
    let (w, h, x0, y0) = spec_save_frame(m);
    let g = spec_save_grid(m);
    assert forall|i: int| 0 <= i < g.len() implies #[trigger] g[i].len() <= 65536 by {}
    lemma_load_grid(g);
    let sh = spec_shift_to_origin(m, x0, y0);
    if spec_is_blank(m) {
        assert(spec_load_grid(g) =~= sh);
    } else {
        let bb = spec_bounding_box_of(m);
        lemma_bounding_box_exists(m);
        assert forall|p: (u16, u16)| #[trigger] spec_load_grid(g).contains_key(p) <==> sh.contains_key(p) by {
            if sh.contains_key(p) {
                let q = ((p.0 + x0) as u16, (p.1 + y0) as u16);
                assert(m.contains_key(q));
                assert(g[p.1 as int][p.0 as int] == spec_cell(m, q));
            }
            if spec_load_grid(g).contains_key(p) {
                let q = ((p.0 + x0) as u16, (p.1 + y0) as u16);
                assert(g[p.1 as int][p.0 as int] == spec_cell(m, q));
            }
        }
        assert forall|p: (u16, u16)| #[trigger] spec_load_grid(g).contains_key(p) implies spec_load_grid(g)[p] == sh[p] by {
            let q = ((p.0 + x0) as u16, (p.1 + y0) as u16);
            assert(g[p.1 as int][p.0 as int] == spec_cell(m, q));
        }
        assert(spec_load_grid(g) =~= sh);
    }
}

/// `std::io::Error`, carried through unchanged.
#[verifier::external_type_specification]
#[verifier::external_body]
pub struct ExIoError(std::io::Error);

/// `png::EncodingError`, carried through unchanged.
#[verifier::external_type_specification]
#[verifier::external_body]
pub struct ExPngEncodingError(png::EncodingError);

/// `png::DecodingError`, carried through unchanged.
#[verifier::external_type_specification]
#[verifier::external_body]
pub struct ExPngDecodingError(png::DecodingError);

/// Why producing or reading file contents failed.
#[derive(Debug)]
pub enum FileError {
    /// Compression or decompression failed.
    Io(std::io::Error),
    /// PNG encoding failed.
    PngEncode(png::EncodingError),
    /// PNG decoding failed.
    PngDecode(png::DecodingError),
    /// The decoded image is too large for 32-bit sample indices.
    ImageTooLarge,
}

/// The gzip stream (default compression, no file name, zero time stamp,
/// unknown OS) that flate2's `GzEncoder` writes for `data`.
pub uninterp spec fn gzip_encoded(data: Seq<u8>) -> Seq<u8>;

/// The bytes that flate2's `GzDecoder` reads out of `data` (the first gzip
/// member), `None` where `data` is not a gzip stream it can decode.
pub uninterp spec fn gzip_decoded(data: Seq<u8>) -> Option<Seq<u8>>;

/// Compresses `data` with `flate2::write::GzEncoder` (default level) into
/// memory. Claimed: it succeeds (the output is a `Vec`, which accepts every
/// write, and the deflate stream is used as flate2 intends, so it reports no
/// error), its result is `gzip_encoded(data)` and holds at least the 10-byte
/// header and the 8-byte trailer that `GzEncoder` writes, and `GzDecoder`
/// reads `data` back out of it.
#[verifier::external_body]
fn gzip_compress(data: &[u8]) -> (r: Result<Vec<u8>, std::io::Error>)
    ensures
        r is Ok,
        r matches Ok(v) ==> v@.len() >= 18,
        r matches Ok(v) ==> v@ == gzip_encoded(data@),
        r matches Ok(v) ==> gzip_decoded(v@) == Some(data@),
{
    let mut encoder = flate2::write::GzEncoder::new(Vec::new(), flate2::Compression::default());
    std::io::Write::write_all(&mut encoder, data)?;
    encoder.finish()
}

/// Decompresses the gzip stream `data` with `flate2::read::GzDecoder`
/// (`read_to_end`). Claimed: it succeeds exactly when `gzip_decoded(data)`
/// is a result, and then returns it.
#[verifier::external_body]
fn gzip_decompress(data: &[u8]) -> (r: Result<Vec<u8>, std::io::Error>)
    ensures
        r is Ok <==> gzip_decoded(data@) is Some,
        r matches Ok(v) ==> gzip_decoded(data@) == Some(v@),
{
    let mut decoder = flate2::read::GzDecoder::new(data);
    let mut out: Vec<u8> = Vec::new();
    std::io::Read::read_to_end(&mut decoder, &mut out)?;
    Ok(out)
}

/// The contents of a `.ptd` file holding the (compact) JSON text `json`:
/// always produced, never empty, and `decode_ptd` gives `json` back from
/// them.
pub fn encode_ptd(json: &[u8]) -> (r: Result<Vec<u8>, FileError>)
    ensures
        r is Ok,
        r matches Ok(v) ==> v@.len() >= 18,
        r matches Ok(v) ==> v@ == gzip_encoded(json@),
        r matches Ok(v) ==> gzip_decoded(v@) == Some(json@),
{
    match gzip_compress(json) {
        Ok(v) => Ok(v),
        Err(e) => Err(FileError::Io(e)),
    }
}

/// The JSON text held in the contents of a `.ptd` file: `Ok` exactly when
/// they are a gzip stream that decodes, with the decoded bytes.
pub fn decode_ptd(bytes: &[u8]) -> (r: Result<Vec<u8>, FileError>)
    ensures
        r is Ok <==> gzip_decoded(bytes@) is Some,
        r matches Ok(v) ==> gzip_decoded(bytes@) == Some(v@),
        r matches Err(e) ==> e is Io,
{
    match gzip_decompress(bytes) {
        Ok(v) => Ok(v),
        Err(e) => Err(FileError::Io(e)),
    }
}

/// Whether `path` has no `\` and no `:` and does not start with two `/`,
/// so that on every platform it is cut into components at `/` only, with no
/// prefix (on Windows `//server/share` is a UNC prefix).
pub open spec fn spec_portable_path(path: Seq<char>) -> bool {
    &&& !path.contains('\\')
    &&& !path.contains(':')
    &&& !(path.len() >= 2 && path[0] == '/' && path[1] == '/')
}

/// The index of the last `/` in `s`, or -1 when there is none.
pub open spec fn spec_last_slash(s: Seq<char>) -> int
    decreases s.len(),
{
    if s.len() == 0 {
        -1
    } else if s.last() == '/' {
        s.len() - 1
    } else {
        spec_last_slash(s.drop_last())
    }
}

/// `spec_last_slash` is an index of `s`, or -1.
pub proof fn lemma_last_slash_range(s: Seq<char>)
    ensures
        -1 <= spec_last_slash(s) < s.len(),
    decreases s.len(),
{
    if s.len() > 0 && s.last() != '/' {
        lemma_last_slash_range(s.drop_last());
    }
}

/// The file name of a path cut at `/` (`Path::file_name`): its last
/// component, where empty components (repeated or trailing separators) and
/// `.` components are skipped; none when no component is left or the last
/// one is `..`.
pub open spec fn spec_file_name(path: Seq<char>) -> Option<Seq<char>>
    decreases path.len(),
{
    let i = spec_last_slash(path);
    let seg = path.subrange(i + 1, path.len() as int);
    if seg.len() == 0 || seg == seq!['.'] {
        if i < 0 {
            None
        } else {
            proof {
                lemma_last_slash_range(path);
            }
            spec_file_name(path.subrange(0, i))
        }
    } else if seg == seq!['.', '.'] {
        None
    } else {
        Some(seg)
    }
}

/// The index of the last `.` in `s`, or -1 when there is none.
pub open spec fn spec_last_dot(s: Seq<char>) -> int
    decreases s.len(),
{
    if s.len() == 0 {
        -1
    } else if s.last() == '.' {
        s.len() - 1
    } else {
        spec_last_dot(s.drop_last())
    }
}

/// The extension of a file name: what follows its last `.`; none for `..`,
/// for a name without a `.`, and for a name whose only `.` is its first
/// character.
pub open spec fn spec_extension_of_name(name: Seq<char>) -> Option<Seq<char>> {
    let i = spec_last_dot(name);
    if name == seq!['.', '.'] || i <= 0 {
        None
    } else {
        Some(name.subrange(i + 1, name.len() as int))
    }
}

/// The view of an optional string.
pub open spec fn spec_text_view(t: Option<String>) -> Option<Seq<char>> {
    match t {
        Some(s) => Some(s@),
        None => None,
    }
}

/// The extension of the file named by `path` (`std::path::Path::extension`,
/// as text). Claimed: an extension holds no `.` and follows a `.` in the
/// path; for a path without `\` and `:` that does not start with `//` it is
/// what `Path::file_name` and
/// `Path::extension` document (the file name's part after its final `.`,
/// none without an embedded `.` or when the only `.` begins the name). How
/// a path with `\` or `:`, or starting with `//`, is cut into components
/// depends on the platform and is left unsaid.
#[verifier::external_body]
fn path_extension(path: &str) -> (r: Option<String>)
    ensures
        r matches Some(e) ==> !e@.contains('.') && exists|i: int|
            0 <= i && i + e@.len() < path@.len() && path@[i] == '.' && #[trigger] path@.subrange(
                i + 1,
                i + 1 + e@.len(),
            ) == e@,
        spec_portable_path(path@) ==> spec_text_view(r) == match spec_file_name(path@) {
            Some(n) => spec_extension_of_name(n),
            None => None,
        },
{
    match std::path::Path::new(path).extension() {
        Some(ext) => Some(ext.to_string_lossy().into_owned()),
        None => None,
    }
}

/// Whether an extension names the compressed format: `ptd` in any case.
pub fn is_ptd_extension(ext: &str) -> (r: bool)
    ensures
        r == spec_is_keyword(ext@, seq!['p', 't', 'd']),
{
    let v = chars_of(ext);
    assert(v@.subrange(0, v@.len() as int) =~= ext@);
    let r = is_keyword(&v, 0, v.len(), &['p', 't', 'd']);
    r
}

/// Whether a file name has the extension `ptd`, in any case.
pub open spec fn spec_is_ptd_name(name: Seq<char>) -> bool {
    match spec_extension_of_name(name) {
        Some(e) => spec_is_keyword(e, seq!['p', 't', 'd']),
        None => false,
    }
}

/// Whether the file named by `path` has the extension `ptd`, in any case.
pub open spec fn spec_is_ptd_path(path: Seq<char>) -> bool {
    match spec_file_name(path) {
        Some(n) => spec_is_ptd_name(n),
        None => false,
    }
}

/// Whether the file at `path` is stored compressed (extension `ptd`, any
/// case); otherwise it is plain JSON.
pub fn uses_gzip(path: &str) -> (r: bool)
    ensures
        r ==> path@.len() >= 4,
        spec_portable_path(path@) ==> r == spec_is_ptd_path(path@),
{
    match path_extension(path) {
        Some(ext) => {
            let r = is_ptd_extension(ext.as_str());
            proof {
                if r {
                    let i = choose|i: int|
                        0 <= i && i + ext@.len() < path@.len() && path@[i] == '.' && #[trigger] path@.subrange(
                            i + 1,
                            i + 1 + ext@.len(),
                        ) == ext@;
                }
            }
            r
        },
        None => false,
    }
}

/// The colour layout of decoded PNG samples (8 bits each).
#[derive(Clone, Copy, PartialEq, Eq, Debug)]
pub enum PngColor {
    Grayscale,
    Rgb,
    Indexed,
    GrayscaleAlpha,
    Rgba,
}

/// Samples per pixel of a colour layout.
pub open spec fn spec_samples(c: PngColor) -> nat {
    match c {
        PngColor::Grayscale => 1,
        PngColor::Indexed => 1,
        PngColor::Rgb => 3,
        PngColor::GrayscaleAlpha => 2,
        PngColor::Rgba => 4,
    }
}

/// The RGBA image (8-bit) that png's `Encoder` writes for `data`, of the
/// given size.
pub uninterp spec fn png_encoded(width: u32, height: u32, data: Seq<u8>) -> Seq<u8>;

/// What png's `Decoder` (with `EXPAND | STRIP_16`) reads from the bytes of a
/// PNG file: the first frame's width, height, colour layout and samples;
/// `None` where the bytes are not a PNG file it decodes within its default
/// limits.
pub uninterp spec fn png_decoded(bytes: Seq<u8>) -> Option<(u32, u32, PngColor, Seq<u8>)>;

/// Whether a decoding outcome is an image whose samples fit in memory
/// (at most `isize::MAX` bytes).
pub open spec fn spec_decoded_in_memory(o: Option<(u32, u32, PngColor, Seq<u8>)>) -> bool {
    match o {
        Some(d) => d.3.len() <= isize::MAX,
        None => false,
    }
}

/// Encodes an 8-bit RGBA image with `png::Encoder` into memory (header,
/// image data, end). Claimed, for a non-empty image of at most 65535 by
/// 65535 pixels whose buffer holds exactly four bytes per pixel and fits in
/// 32 bits: it succeeds (the encoder refuses only empty sizes and buffers of
/// the wrong length, and its output is a `Vec`), the result is
/// `png_encoded` and starts with the 8-byte PNG signature, and png's
/// `Decoder` reads the same size, RGBA layout and samples back from it.
#[verifier::external_body]
fn png_encode_rgba8(width: u32, height: u32, data: &[u8]) -> (r: Result<Vec<u8>, png::EncodingError>)
    requires
        1 <= width <= 65535,
        1 <= height <= 65535,
        data@.len() == width * height * 4,
        width * height * 4 <= 0xffff_ffff,
    ensures
        r is Ok,
        r matches Ok(v) ==> v@.len() >= 8,
        r matches Ok(v) ==> v@ == png_encoded(width, height, data@),
        r matches Ok(v) ==> png_decoded(v@) == Some((width, height, PngColor::Rgba, data@)),
{
    let mut out: Vec<u8> = Vec::new();
    let mut encoder = png::Encoder::new(&mut out, width, height);
    encoder.set_color(png::ColorType::Rgba);
    encoder.set_depth(png::BitDepth::Eight);
    let mut writer = encoder.write_header()?;
    writer.write_image_data(data)?;
    writer.finish()?;
    Ok(out)
}

/// Decodes the first frame of a PNG file with `png::Decoder`, expanding
/// palettes and low bit depths and stripping 16-bit samples, so that every
/// sample is one byte. Claimed: a success is `png_decoded(bytes)`, with (as
/// `Reader::next_frame` checks before filling it) a sample buffer of at least
/// `width * height * samples` bytes; a failure means that the bytes do not
/// decode, or that the decoded samples would not fit in memory
/// (`output_buffer_size` gives no size beyond `isize::MAX`).
#[verifier::external_body]
fn png_decode(bytes: &[u8]) -> (r: Result<(u32, u32, PngColor, Vec<u8>), png::DecodingError>)
    ensures
        r matches Ok(d) ==> png_decoded(bytes@) == Some((d.0, d.1, d.2, d.3@)),
        r matches Ok(d) ==> d.3@.len() >= d.0 * d.1 * spec_samples(d.2),
        r is Err ==> !spec_decoded_in_memory(png_decoded(bytes@)),
{
    let mut decoder = png::Decoder::new(std::io::Cursor::new(bytes));
    decoder.set_transformations(png::Transformations::EXPAND | png::Transformations::STRIP_16);
    let mut reader = decoder.read_info()?;
    let mut buf = vec![0u8; reader.output_buffer_size().unwrap_or(0)];
    let info = reader.next_frame(&mut buf)?;
    let color = match info.color_type {
        png::ColorType::Grayscale => PngColor::Grayscale,
        png::ColorType::Rgb => PngColor::Rgb,
        png::ColorType::Indexed => PngColor::Indexed,
        png::ColorType::GrayscaleAlpha => PngColor::GrayscaleAlpha,
        png::ColorType::Rgba => PngColor::Rgba,
    };
    Ok((info.width, info.height, color, buf))
}

/// Width, height and origin `(w, h, x0, y0)` of an exported image: the
/// bounding box, or a single pixel at the origin for a blank canvas.
pub open spec fn spec_png_frame(m: Map<(u16, u16), Rgb>) -> (u16, u16, u16, u16) {
    if spec_is_blank(m) {
        (1, 1, 0, 0)
    } else {
        spec_save_frame(m)
    }
}

/// Exporting is possible when the box fits in 16 bits and its RGBA buffer
/// size (`w * h * 4`) in 32 bits.
pub open spec fn spec_png_fits(m: Map<(u16, u16), Rgb>) -> bool {
    &&& spec_save_fits(m)
    &&& spec_png_frame(m).0 * spec_png_frame(m).1 * 4 <= 0xffff_ffff
}

/// The four RGBA bytes of a pixel: opaque colour, or transparent black.
pub open spec fn spec_rgba_of(c: Option<Rgb>) -> Seq<u8> {
    match c {
        Some(rgb) => seq![rgb.0, rgb.1, rgb.2, 255u8],
        None => seq![0u8, 0u8, 0u8, 0u8],
    }
}

/// The RGBA bytes of the first `n` pixels of the image row at canvas row `y`.
pub open spec fn spec_rgba_row(m: Map<(u16, u16), Rgb>, x0: u16, y: u16, n: nat) -> Seq<u8>
    decreases n,
{
    if n == 0 {
        Seq::empty()
    } else {
        spec_rgba_row(m, x0, y, (n - 1) as nat) + spec_rgba_of(
            spec_pixel_at(m, ((x0 + n - 1) as u16, y)),
        )
    }
}

/// The RGBA bytes of the first `n` rows of the image.
pub open spec fn spec_rgba_rows(m: Map<(u16, u16), Rgb>, x0: u16, y0: u16, w: nat, n: nat) -> Seq<u8>
    decreases n,
{
    if n == 0 {
        Seq::empty()
    } else {
        spec_rgba_rows(m, x0, y0, w, (n - 1) as nat) + spec_rgba_row(m, x0, (y0 + n - 1) as u16, w)
    }
}

/// The RGBA buffer of an exported canvas, row-major.
pub open spec fn spec_png_rgba(m: Map<(u16, u16), Rgb>) -> Seq<u8> {
    let (w, h, x0, y0) = spec_png_frame(m);
    spec_rgba_rows(m, x0, y0, w as nat, h as nat)
}

/// Appends the RGBA bytes of a pixel.
fn push_rgba(buf: &mut Vec<u8>, c: Option<Rgb>)
    ensures
        final(buf)@ == old(buf)@ + spec_rgba_of(c),
{
    match c {
        Some((r, g, b)) => {
            buf.push(r);
            buf.push(g);
            buf.push(b);
            buf.push(255);
        },
        None => {
            buf.push(0);
            buf.push(0);
            buf.push(0);
            buf.push(0);
        },
    }
    assert(buf@ =~= old(buf)@ + spec_rgba_of(c));
}

/// The image size and RGBA buffer of a canvas export: the bounding box
/// (one transparent pixel for a blank canvas), painted pixels opaque, empty
/// ones transparent.
pub fn png_rgba_image(canvas: &Canvas) -> (r: (u32, u32, Vec<u8>))
    requires
        spec_png_fits(canvas@),
    ensures
        r.0 == spec_png_frame(canvas@).0,
        r.1 == spec_png_frame(canvas@).1,
        r.2@ == spec_png_rgba(canvas@),
{
    let ghost m = canvas@;
    let (width, height, min_x, min_y) = match canvas.bounding_box() {
        Some((min_x, min_y, max_x, max_y)) => {
            proof {
                let bb = (min_x, min_y, max_x, max_y);
                lemma_bounding_box_unique(m, bb, spec_bounding_box_of(m));
                let p2 = choose|p: (u16, u16)| #[trigger] m.contains_key(p) && p.0 == bb.2;
                let p0 = choose|p: (u16, u16)| #[trigger] m.contains_key(p) && p.0 == bb.0;
                let p3 = choose|p: (u16, u16)| #[trigger] m.contains_key(p) && p.1 == bb.3;
                let p1 = choose|p: (u16, u16)| #[trigger] m.contains_key(p) && p.1 == bb.1;
                assert(m.contains_key(p2) && m.contains_key(p0));
                assert(m.contains_key(p3) && m.contains_key(p1));
            }
            (max_x - min_x + 1, max_y - min_y + 1, min_x, min_y)
        },
        None => (1u16, 1u16, 0u16, 0u16),
    };
    assert(spec_png_frame(m) == (width, height, min_x, min_y));
    let mut buf: Vec<u8> = Vec::new();
    let mut y: u16 = 0;
    while y < height
        invariant
            y <= height,
            m == canvas@,
            spec_png_frame(m) == (width, height, min_x, min_y),
            min_y as int + height as int <= 65536,
            min_x as int + width as int <= 65536,
            buf@ == spec_rgba_rows(m, min_x, min_y, width as nat, y as nat),
        decreases height - y,
    {
        let ghost before = buf@;
        let mut x: u16 = 0;
        while x < width
            invariant
                x <= width,
                y < height,
                m == canvas@,
                min_y as int + height as int <= 65536,
                min_x as int + width as int <= 65536,
                buf@ == before + spec_rgba_row(m, min_x, (min_y + y) as u16, x as nat),
            decreases width - x,
        {
            let c = canvas.get_pixel(min_x + x, min_y + y);
            push_rgba(&mut buf, c);
            x = x + 1;
            assert(buf@ =~= before + spec_rgba_row(m, min_x, (min_y + y) as u16, x as nat));
        }
        y = y + 1;
        assert(buf@ =~= spec_rgba_rows(m, min_x, min_y, width as nat, y as nat));
    }
    (width as u32, height as u32, buf)
}

/// Whether a canvas can be exported (see `spec_png_fits`).
pub fn png_export_fits(canvas: &Canvas) -> (r: bool)
    ensures
        r == spec_png_fits(canvas@),
{
    let ghost m = canvas@;
    match canvas.bounding_box() {
        None => true,
        Some((min_x, min_y, max_x, max_y)) => {
            let bb = (min_x, min_y, max_x, max_y);
            proof {
                lemma_bounding_box_unique(m, bb, spec_bounding_box_of(m));
            }
            if max_x - min_x > 65534 || max_y - min_y > 65534 {
                proof {
                    let p2 = choose|p: (u16, u16)| #[trigger] m.contains_key(p) && p.0 == bb.2;
                    let p0 = choose|p: (u16, u16)| #[trigger] m.contains_key(p) && p.0 == bb.0;
                    let p3 = choose|p: (u16, u16)| #[trigger] m.contains_key(p) && p.1 == bb.3;
                    let p1 = choose|p: (u16, u16)| #[trigger] m.contains_key(p) && p.1 == bb.1;
                    assert(m.contains_key(p2) && m.contains_key(p0));
                    assert(m.contains_key(p3) && m.contains_key(p1));
                }
                return false;
            }
            proof {
                assert forall|p: (u16, u16), q: (u16, u16)|
                    #[trigger] m.contains_key(p) && #[trigger] m.contains_key(q) implies p.0 - q.0 <= 65534 && p.1 - q.1 <= 65534 by {}
            }
            let w: u64 = (max_x - min_x + 1) as u64;
            let h: u64 = (max_y - min_y + 1) as u64;
            assert(w * h * 4 <= 65535 * 65535 * 4) by (nonlinear_arith)
                requires
                    w <= 65535,
                    h <= 65535,
            ;
            w * h * 4 <= 0xffff_ffff
        },
    }
}

/// The RGBA bytes of `n` pixels of a row are four per pixel.
proof fn lemma_rgba_row_len(m: Map<(u16, u16), Rgb>, x0: u16, y: u16, n: nat)
    ensures
        spec_rgba_row(m, x0, y, n).len() == 4 * n,
    decreases n,
{
    if n > 0 {
        lemma_rgba_row_len(m, x0, y, (n - 1) as nat);
    }
}

/// The RGBA bytes of `n` rows of `w` pixels are four per pixel.
proof fn lemma_rgba_rows_len(m: Map<(u16, u16), Rgb>, x0: u16, y0: u16, w: nat, n: nat)
    ensures
        spec_rgba_rows(m, x0, y0, w, n).len() == w * n * 4,
    decreases n,
{
    if n > 0 {
        lemma_rgba_rows_len(m, x0, y0, w, (n - 1) as nat);
        lemma_rgba_row_len(m, x0, (y0 + n - 1) as u16, w);
        assert(w * n * 4 == w * (n - 1) * 4 + 4 * w) by (nonlinear_arith);
    } else {
        assert(w * n * 4 == 0) by (nonlinear_arith)
            requires
                n == 0,
        ;
    }
}

/// An exported image is at least one pixel wide and high.
proof fn lemma_png_frame_size(m: Map<(u16, u16), Rgb>)
    requires
        spec_png_fits(m),
    ensures
        spec_png_frame(m).0 >= 1,
        spec_png_frame(m).1 >= 1,
{
    if !spec_is_blank(m) {
        lemma_bounding_box_exists(m);
        let bb = spec_bounding_box_of(m);
        let p2 = choose|p: (u16, u16)| #[trigger] m.contains_key(p) && p.0 == bb.2;
        let p0 = choose|p: (u16, u16)| #[trigger] m.contains_key(p) && p.0 == bb.0;
        let p3 = choose|p: (u16, u16)| #[trigger] m.contains_key(p) && p.1 == bb.3;
        let p1 = choose|p: (u16, u16)| #[trigger] m.contains_key(p) && p.1 == bb.1;
        assert(m.contains_key(p2) && m.contains_key(p0));
        assert(m.contains_key(p3) && m.contains_key(p1));
    }
}

/// The PNG file contents for a canvas (never empty): its bounding box as an
/// RGBA image, which png's decoder reads back with the same size and
/// samples.
pub fn export_png_bytes(canvas: &Canvas) -> (r: Result<Vec<u8>, FileError>)
    requires
        spec_png_fits(canvas@),
    ensures
        r is Ok,
        r matches Ok(v) ==> v@.len() >= 8,
        r matches Ok(v) ==> v@ == png_encoded(
            spec_png_frame(canvas@).0 as u32,
            spec_png_frame(canvas@).1 as u32,
            spec_png_rgba(canvas@),
        ),
        r matches Ok(v) ==> png_decoded(v@) == Some(
            (
                spec_png_frame(canvas@).0 as u32,
                spec_png_frame(canvas@).1 as u32,
                PngColor::Rgba,
                spec_png_rgba(canvas@),
            ),
        ),
{
    let (w, h, data) = png_rgba_image(canvas);
    proof {
        lemma_png_frame_size(canvas@);
        lemma_rgba_rows_len(canvas@, spec_png_frame(canvas@).2, spec_png_frame(canvas@).3, w as nat, h as nat);
    }
    match png_encode_rgba8(w, h, data.as_slice()) {
        Ok(v) => Ok(v),
        Err(e) => Err(FileError::PngEncode(e)),
    }
}

/// The `(r, g, b, a)` of the pixel whose samples start at `i`; grey is
/// spread over the three channels and a missing alpha is opaque.
pub open spec fn spec_png_pixel(color: PngColor, d: Seq<u8>, i: int) -> (u8, u8, u8, u8) {
    match color {
        PngColor::Grayscale => (d[i], d[i], d[i], 255),
        PngColor::GrayscaleAlpha => (d[i], d[i], d[i], d[i + 1]),
        PngColor::Rgb => (d[i], d[i + 1], d[i + 2], 255),
        PngColor::Rgba => (d[i], d[i + 1], d[i + 2], d[i + 3]),
        PngColor::Indexed => (0, 0, 0, 0),
    }
}

/// Where the samples of pixel `(x, y)` start.
pub open spec fn spec_png_offset(w: u32, color: PngColor, x: int, y: int) -> int {
    (y * w + x) * spec_samples(color)
}

/// Whether the image pixel `p` becomes a canvas pixel: inside the image,
/// not of palette layout, and not fully transparent.
pub open spec fn spec_png_keeps(w: u32, h: u32, color: PngColor, d: Seq<u8>, p: (u16, u16)) -> bool {
    &&& p.0 < w
    &&& p.1 < h
    &&& color != PngColor::Indexed
    &&& spec_png_pixel(color, d, spec_png_offset(w, color, p.0 as int, p.1 as int)).3 > 0
}

/// The canvas read from a decoded image: every kept pixel with its RGB.
pub open spec fn spec_png_canvas(w: u32, h: u32, color: PngColor, d: Seq<u8>) -> Map<(u16, u16), Rgb> {
    Map::new(
        |p: (u16, u16)| spec_png_keeps(w, h, color, d, p),
        |p: (u16, u16)|
            {
                let c = spec_png_pixel(color, d, spec_png_offset(w, color, p.0 as int, p.1 as int));
                (c.0, c.1, c.2)
            },
    )
}

/// The part of `spec_png_canvas` read before pixel `(x, y)` in row-major
/// order.
pub open spec fn spec_png_canvas_before(
    w: u32,
    h: u32,
    color: PngColor,
    d: Seq<u8>,
    x: int,
    y: int,
) -> Map<(u16, u16), Rgb> {
    spec_png_canvas(w, h, color, d).restrict(
        Set::new(|p: (u16, u16)| p.1 < y || (p.1 == y && p.0 < x)),
    )
}

/// Decoded samples can be indexed with 32-bit offsets: the last pixel's
/// offset fits in `u32`.
pub open spec fn spec_png_indexable(w: u32, h: u32, color: PngColor) -> bool {
    w * h == 0 || (w * h - 1) * spec_samples(color) <= 0xffff_ffff
}

/// Samples per pixel of a colour layout.
fn samples_of(color: PngColor) -> (r: u32)
    ensures
        r == spec_samples(color),
{
    match color {
        PngColor::Grayscale => 1,
        PngColor::Indexed => 1,
        PngColor::Rgb => 3,
        PngColor::GrayscaleAlpha => 2,
        PngColor::Rgba => 4,
    }
}

/// The `(r, g, b, a)` of the pixel whose samples start at `i`.
fn read_png_pixel(color: PngColor, data: &Vec<u8>, i: usize) -> (r: (u8, u8, u8, u8))
    requires
        i + spec_samples(color) <= data.len(),
    ensures
        r == spec_png_pixel(color, data@, i as int),
{
    match color {
        PngColor::Grayscale => (data[i], data[i], data[i], 255u8),
        PngColor::GrayscaleAlpha => (data[i], data[i], data[i], data[i + 1]),
        PngColor::Rgb => (data[i], data[i + 1], data[i + 2], 255u8),
        PngColor::Rgba => (data[i], data[i + 1], data[i + 2], data[i + 3]),
        PngColor::Indexed => (0, 0, 0, 0),
    }
}

/// Reads a canvas from decoded image samples: each pixel with non-zero
/// alpha within 16-bit coordinates becomes a painted pixel; palette images
/// give nothing.
pub fn canvas_from_png_data(width: u32, height: u32, color: PngColor, data: &Vec<u8>) -> (c: Canvas)
    requires
        data@.len() >= width * height * spec_samples(color),
        spec_png_indexable(width, height, color),
    ensures
        c@ == spec_png_canvas(width, height, color, data@),
{
    let samples = samples_of(color);
    let ghost d = data@;
    let mut canvas = Canvas::new();
    assert(canvas@ =~= spec_png_canvas_before(width, height, color, d, 0, 0));
    let mut y: u32 = 0;
    while y < height
        invariant
            y <= height,
            samples == spec_samples(color),
            d == data@,
            data@.len() >= width * height * spec_samples(color),
            spec_png_indexable(width, height, color),
            canvas@ == spec_png_canvas_before(width, height, color, d, 0, y as int),
        decreases height - y,
    {
        let mut x: u32 = 0;
        while x < width
            invariant
                x <= width,
                y < height,
                samples == spec_samples(color),
                d == data@,
                data@.len() >= width * height * spec_samples(color),
                spec_png_indexable(width, height, color),
                canvas@ == spec_png_canvas_before(width, height, color, d, x as int, y as int),
            decreases width - x,
        {
            let ghost before = canvas@;
            assert(y * width + x <= width * height - 1) by (nonlinear_arith)
                requires
                    y < height,
                    x < width,
            ;
            assert((y * width + x) * samples <= (width * height - 1) * samples) by (nonlinear_arith)
                requires
                    y * width + x <= width * height - 1,
            ;
            assert((y * width + x) * samples + samples <= width * height * samples) by (nonlinear_arith)
                requires
                    y * width + x <= width * height - 1,
            ;
            let idx: usize = ((y * width + x) * samples) as usize;
            assert(idx + samples <= data@.len());
            let ghost keeps_here = x <= 65535 && y <= 65535 && spec_png_keeps(width, height, color, d, (x as u16, y as u16));
            match color {
                PngColor::Indexed => {},
                _ => {
                    let (r, g, b, a) = read_png_pixel(color, data, idx);
                    assert((r, g, b, a) == spec_png_pixel(color, d, idx as int));
                    if a > 0 && x <= 65535 && y <= 65535 {
                        canvas.set_pixel(x as u16, y as u16, Some((r, g, b)));
                    }
                },
            }
            x = x + 1;
            assert(canvas@ =~= spec_png_canvas_before(width, height, color, d, x as int, y as int));
        }
        assert(canvas@ =~= spec_png_canvas_before(width, height, color, d, 0, y + 1));
        y = y + 1;
    }
    assert(canvas@ =~= spec_png_canvas(width, height, color, d));
    canvas
}

/// Reads a canvas from the bytes of a PNG file: the first frame, every
/// pixel with non-zero alpha painted with its colour; an image too large for
/// 32-bit sample offsets is refused.
pub fn import_png_bytes(bytes: &[u8]) -> (r: Result<Canvas, FileError>)
    ensures
        r matches Ok(c) ==> (png_decoded(bytes@) matches Some(d) && spec_png_indexable(d.0, d.1, d.2)
            && c@ == spec_png_canvas(d.0, d.1, d.2, d.3)),
        r matches Err(e) ==> (e is PngDecode || e is ImageTooLarge),
        r matches Err(FileError::PngDecode(_)) ==> !spec_decoded_in_memory(png_decoded(bytes@)),
        r matches Err(FileError::ImageTooLarge) ==> (png_decoded(bytes@) matches Some(d)
            && !spec_png_indexable(d.0, d.1, d.2)),
        spec_decoded_in_memory(png_decoded(bytes@)) && (png_decoded(bytes@) matches Some(d)
            && spec_png_indexable(d.0, d.1, d.2)) ==> r is Ok,
{
    match png_decode(bytes) {
        Err(e) => Err(FileError::PngDecode(e)),
        Ok((width, height, color, data)) => {
            let samples = samples_of(color) as u128;
            assert(width as u128 * height as u128 <= 0xffff_ffff * 0xffff_ffff) by (nonlinear_arith)
                requires
                    width <= 0xffff_ffffu32,
                    height <= 0xffff_ffffu32,
            ;
            let pixels: u128 = width as u128 * height as u128;
            if pixels > 0 {
                assert((pixels - 1) * samples <= 0xffff_ffff * 0xffff_ffff * 4) by (nonlinear_arith)
                    requires
                        pixels <= 0xffff_ffff * 0xffff_ffff,
                        samples <= 4,
                        pixels >= 1,
                ;
                if (pixels - 1) * samples > 0xffff_ffff {
                    return Err(FileError::ImageTooLarge);
                }
            }
            Ok(canvas_from_png_data(width, height, color, &data))
        },
    }
}

/// The four bytes of pixel `x` of a row of RGBA bytes.
proof fn lemma_rgba_row_at(m: Map<(u16, u16), Rgb>, x0: u16, y: u16, n: nat, x: nat, k: int)
    requires
        x < n,
        0 <= k < 4,
    ensures
        spec_rgba_row(m, x0, y, n)[x * 4 + k] == spec_rgba_of(
            spec_pixel_at(m, ((x0 + x) as u16, y)),
        )[k],
    decreases n,
{
    lemma_rgba_row_len(m, x0, y, (n - 1) as nat);
    if x < n - 1 {
        lemma_rgba_row_at(m, x0, y, (n - 1) as nat, x, k);
    }
}

/// The four bytes of pixel `(x, y)` of an RGBA image made of rows.
proof fn lemma_rgba_rows_at(
    m: Map<(u16, u16), Rgb>,
    x0: u16,
    y0: u16,
    w: nat,
    n: nat,
    x: nat,
    y: nat,
    k: int,
)
    requires
        x < w,
        y < n,
        0 <= k < 4,
    ensures
        spec_rgba_rows(m, x0, y0, w, n)[(y * w + x) * 4 + k] == spec_rgba_of(
            spec_pixel_at(m, ((x0 + x) as u16, (y0 + y) as u16)),
        )[k],
    decreases n,
{
    let n1 = (n - 1) as nat;
    lemma_rgba_rows_len(m, x0, y0, w, n1);
    let a = spec_rgba_rows(m, x0, y0, w, n1);
    let b = spec_rgba_row(m, x0, (y0 + n - 1) as u16, w);
    assert(spec_rgba_rows(m, x0, y0, w, n) == a + b);
    lemma_rgba_row_len(m, x0, (y0 + n - 1) as u16, w);
    if y < n1 {
        lemma_rgba_rows_at(m, x0, y0, w, n1, x, y, k);
        assert((y * w + x) * 4 + k < w * n1 * 4) by (nonlinear_arith)
            requires
                y < n1,
                x < w,
                0 <= k < 4,
        ;
    } else {
        assert((y * w + x) * 4 + k == w * n1 * 4 + (x * 4 + k)) by (nonlinear_arith)
            requires
                y == n1,
        ;
        lemma_rgba_row_at(m, x0, (y0 + n - 1) as u16, w, x, k);
    }
}

/// Reading back an exported image gives the canvas moved so that the
/// top-left corner of its bounding box is the origin (a blank canvas gives
/// a blank one): every painted pixel keeps its colour and its place relative
/// to the others, and the image can be read with 32-bit sample offsets.
pub proof fn law_import_inverts_export(m: Map<(u16, u16), Rgb>)
    requires
        spec_png_fits(m),
    ensures
        ({
            let (w, h, x0, y0) = spec_png_frame(m);
            &&& spec_png_indexable(w as u32, h as u32, PngColor::Rgba)
            &&& spec_png_canvas(w as u32, h as u32, PngColor::Rgba, spec_png_rgba(m))
                == spec_shift_to_origin(m, x0, y0)
        }),
{
    let (w, h, x0, y0) = spec_png_frame(m);
    let d = spec_png_rgba(m);
    lemma_png_frame_size(m);
    assert(spec_png_indexable(w as u32, h as u32, PngColor::Rgba)) by (nonlinear_arith)
        requires
            w * h * 4 <= 0xffff_ffff,
            w >= 1,
            h >= 1,
    ;
    if !spec_is_blank(m) {
        lemma_bounding_box_exists(m);
    }
    let bb = spec_bounding_box_of(m);
    let c = spec_png_canvas(w as u32, h as u32, PngColor::Rgba, d);
    let t = spec_shift_to_origin(m, x0, y0);
    assert forall|p: (u16, u16)| #[trigger] c.contains_key(p) == t.contains_key(p) && (c.contains_key(p) ==> c[p] == t[p]) by {
        if p.0 < w && p.1 < h {
            let off = spec_png_offset(w as u32, PngColor::Rgba, p.0 as int, p.1 as int);
            assert(off == (p.1 * w + p.0) * 4);
            lemma_rgba_rows_at(m, x0, y0, w as nat, h as nat, p.0 as nat, p.1 as nat, 0);
            lemma_rgba_rows_at(m, x0, y0, w as nat, h as nat, p.0 as nat, p.1 as nat, 1);
            lemma_rgba_rows_at(m, x0, y0, w as nat, h as nat, p.0 as nat, p.1 as nat, 2);
            lemma_rgba_rows_at(m, x0, y0, w as nat, h as nat, p.0 as nat, p.1 as nat, 3);
            if spec_is_blank(m) {
                assert(!m.contains_key(((x0 + p.0) as u16, (y0 + p.1) as u16)));
            } else {
                assert(x0 + p.0 <= bb.2);
                assert(y0 + p.1 <= bb.3);
            }
        } else if t.contains_key(p) {
            let q = ((p.0 + x0) as u16, (p.1 + y0) as u16);
            assert(m.contains_key(q));
            assert(!spec_is_blank(m));
            assert(bb.0 <= q.0 <= bb.2 && bb.1 <= q.1 <= bb.3);
        }
    }
    assert(c.dom() =~= t.dom());
    assert(c =~= t);
}

/// What import reads for each decoded colour layout, pixel `p` of a
/// `w` by `h` image with samples `d` stored row by row: a grey sample is
/// spread over red, green and blue; RGB and RGBA samples are taken in red,
/// green, blue order; an alpha sample of 0 leaves the pixel empty and a
/// missing alpha is opaque; palette images and pixels outside the image give
/// nothing.
pub proof fn law_import_reads_samples(w: u32, h: u32, d: Seq<u8>, p: (u16, u16))
    ensures
        (p.0 >= w || p.1 >= h) ==> !spec_png_canvas(w, h, PngColor::Grayscale, d).contains_key(p)
            && !spec_png_canvas(w, h, PngColor::GrayscaleAlpha, d).contains_key(p)
            && !spec_png_canvas(w, h, PngColor::Rgb, d).contains_key(p)
            && !spec_png_canvas(w, h, PngColor::Rgba, d).contains_key(p),
        !spec_png_canvas(w, h, PngColor::Indexed, d).contains_key(p),
        p.0 < w && p.1 < h ==> ({
            let i = p.1 * w + p.0;
            &&& spec_png_canvas(w, h, PngColor::Grayscale, d).contains_key(p)
            &&& spec_png_canvas(w, h, PngColor::Grayscale, d)[p] == (d[i], d[i], d[i])
            &&& spec_png_canvas(w, h, PngColor::GrayscaleAlpha, d).contains_key(p) <==> d[2 * i + 1] > 0
            &&& spec_png_canvas(w, h, PngColor::GrayscaleAlpha, d).contains_key(p) ==> spec_png_canvas(
                w,
                h,
                PngColor::GrayscaleAlpha,
                d,
            )[p] == (d[2 * i], d[2 * i], d[2 * i])
            &&& spec_png_canvas(w, h, PngColor::Rgb, d).contains_key(p)
            &&& spec_png_canvas(w, h, PngColor::Rgb, d)[p] == (d[3 * i], d[3 * i + 1], d[3 * i + 2])
            &&& spec_png_canvas(w, h, PngColor::Rgba, d).contains_key(p) <==> d[4 * i + 3] > 0
            &&& spec_png_canvas(w, h, PngColor::Rgba, d).contains_key(p) ==> spec_png_canvas(
                w,
                h,
                PngColor::Rgba,
                d,
            )[p] == (d[4 * i], d[4 * i + 1], d[4 * i + 2])
        }),
{
    let i = p.1 * w + p.0;
    assert(spec_png_offset(w, PngColor::Grayscale, p.0 as int, p.1 as int) == i);
    assert(spec_png_offset(w, PngColor::GrayscaleAlpha, p.0 as int, p.1 as int) == 2 * i);
    assert(spec_png_offset(w, PngColor::Rgb, p.0 as int, p.1 as int) == 3 * i);
    assert(spec_png_offset(w, PngColor::Rgba, p.0 as int, p.1 as int) == 4 * i);
}

} // verus!
