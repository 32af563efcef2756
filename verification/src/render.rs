//! The rasterizer: from heat levels to RGB bytes.
//!
//! A frame is a row-major run of pixels of three bytes each. With a scale
//! above one, every cell of the grid becomes a square block of equal pixels.

use crate::doom_fire::DoomFire;
use crate::grid::{cell_at, lemma_cell_places};
use vstd::arithmetic::div_mod::lemma_fundamental_div_mod_converse;
use vstd::prelude::*;

verus! {

/// A rendered image: `width` by `height` pixels, three bytes each, row by
/// row from the top.
#[derive(Debug)]
pub struct Frame {
    pub width: usize,
    pub height: usize,
    pub bytes: Vec<u8>,
}

/// The shape of a frame: its sides in pixels and the length of one of its
/// rows in bytes.
#[derive(Clone, Copy, Debug, PartialEq, Eq, Structural)]
pub struct FrameShape {
    pub width: usize,
    pub height: usize,
    pub row_len: usize,
}

/// Why a frame cannot be rendered.
#[derive(Clone, Copy, Debug, PartialEq, Eq, Structural)]
pub enum RenderError {
    /// The scale is zero.
    ZeroScale,
    /// The frame would have more bytes than can be addressed.
    TooLarge,
}

/// Bytes per pixel: red, green, blue.
pub const BYTES_PER_PIXEL: usize = 3;

/// Number of bytes of one row of a frame.
pub open spec fn row_len(width: int, scale: int) -> int {
    3 * (width * scale)
}

/// Number of bytes of a frame.
pub open spec fn frame_len(width: int, height: int, scale: int) -> int {
    row_len(width, scale) * (height * scale)
}

/// The bytes of a row of the frame that shows row `y` of the grid: byte `j`
/// is channel `j % 3` of pixel `j / 3`, and the pixel has the colour that the
/// palette gives to the level of the cell it covers.
pub open spec fn row_bytes(
    grid: Seq<u8>,
    palette: Seq<[u8; 3]>,
    width: int,
    scale: int,
    y: int,
) -> Seq<u8> {
    Seq::new(
        row_len(width, scale) as nat,
        |j: int| palette[cell_at(grid, width, (j / 3) / scale, y) as int][j % 3],
    )
}

/// The bytes of a frame: its rows from the top, where row `oy` of the frame
/// shows row `oy / scale` of the grid.
pub open spec fn frame_bytes(
    grid: Seq<u8>,
    palette: Seq<[u8; 3]>,
    width: int,
    height: int,
    scale: int,
) -> Seq<u8> {
    Seq::new(
        frame_len(width, height, scale) as nat,
        |k: int|
            row_bytes(grid, palette, width, scale, (k / row_len(width, scale)) / scale)[k % row_len(
                width,
                scale,
            )],
    )
}

impl Frame {
    /// The invariant of a frame: three bytes for every pixel.
    pub open spec fn wf(&self) -> bool {
        self.bytes@.len() == 3 * (self.width * self.height)
    }
}

/// Where byte `channel` of pixel (`ox`, `oy`) lies in a frame that is
/// `pixels` wide.
pub open spec fn byte_place(pixels: int, ox: int, oy: int, channel: int) -> int {
    3 * (oy * pixels + ox) + channel
}

/// Upscaling replicates cells into blocks: in a frame at any scale, every
/// pixel of the square block that stands for a cell has, in each channel, the
/// colour that the palette gives to the level of that cell.
pub proof fn lemma_blocks_are_uniform(
    grid: Seq<u8>,
    palette: Seq<[u8; 3]>,
    width: int,
    height: int,
    scale: int,
    x: int,
    y: int,
    dx: int,
    dy: int,
    channel: int,
)
    requires
        0 < scale,
        0 <= x < width,
        0 <= y < height,
        0 <= dx < scale,
        0 <= dy < scale,
        0 <= channel < 3,
    ensures
        0 <= byte_place(width * scale, x * scale + dx, y * scale + dy, channel) < frame_bytes(
            grid,
            palette,
            width,
            height,
            scale,
        ).len(),
        frame_bytes(grid, palette, width, height, scale)[byte_place(
            width * scale,
            x * scale + dx,
            y * scale + dy,
            channel,
        )] == palette[cell_at(grid, width, x, y) as int][channel],
{
    let pixels = width * scale;
    let ox = x * scale + dx;
    let oy = y * scale + dy;
    let k = byte_place(pixels, ox, oy, channel);
    lemma_cell_places(scale, width, dx, x, dx, x);
    lemma_cell_places(scale, height, dy, y, dy, y);
    assert(0 <= ox < pixels) by {
        assert(scale * width == width * scale) by (nonlinear_arith);
    }
    assert(0 <= oy < height * scale) by {
        assert(scale * height == height * scale) by (nonlinear_arith);
    }
    lemma_cell_places(pixels, height * scale, ox, oy, ox, oy);
    let row = row_len(width, scale);
    let j = 3 * ox + channel;
    assert(k == row * oy + j && 0 <= j < row && row * (height * scale) == 3 * (pixels * (height
        * scale))) by (nonlinear_arith)
        requires
            k == 3 * (oy * pixels + ox) + channel,
            row == 3 * pixels,
            j == 3 * ox + channel,
            0 <= ox < pixels,
            0 <= channel < 3,
    ;
    assert(0 <= k < frame_len(width, height, scale)) by (nonlinear_arith)
        requires
            k == row * oy + j,
            0 <= j < row,
            0 <= oy < height * scale,
            frame_len(width, height, scale) == row * (height * scale),
    ;
    lemma_fundamental_div_mod_converse(k, row, oy, j);
    lemma_fundamental_div_mod_converse(oy, scale, y, dy);
    lemma_fundamental_div_mod_converse(ox, scale, x, dx);
}

/// A frame is made of its rows, each in a place of its own: row `oy` of the
/// frame fills the bytes from `oy` times the length of a row to the next such
/// place, and it is the rendered row `oy / scale` of the grid. So the rows can
/// be rendered apart from each other, in any order.
pub proof fn lemma_frame_is_made_of_rows(
    grid: Seq<u8>,
    palette: Seq<[u8; 3]>,
    width: int,
    height: int,
    scale: int,
    oy: int,
)
    requires
        0 < scale,
        0 < width,
        0 <= oy < height * scale,
    ensures
        0 <= row_len(width, scale) * oy,
        row_len(width, scale) * (oy + 1) <= frame_len(width, height, scale),
        frame_bytes(grid, palette, width, height, scale).subrange(
            row_len(width, scale) * oy,
            row_len(width, scale) * (oy + 1),
        ) == row_bytes(grid, palette, width, scale, oy / scale),
{
    let row = row_len(width, scale);
    let frame = frame_bytes(grid, palette, width, height, scale);
    assert(0 < row && 0 <= row * oy && row * (oy + 1) == row * oy + row && row * (oy + 1) <= row * (
    height * scale)) by (nonlinear_arith)
        requires
            row == 3 * (width * scale),
            0 < width,
            0 < scale,
            0 <= oy < height * scale,
    ;
    let band = frame.subrange(row * oy, row * (oy + 1));
    let line = row_bytes(grid, palette, width, scale, oy / scale);
    assert forall|j: int| 0 <= j < row implies #[trigger] band[j] == line[j] by {
        lemma_fundamental_div_mod_converse(row * oy + j, row, oy, j);
    }
    assert(band =~= line);
}

/// Renders the row of pixels that shows row `y` of the grid, `scale` pixels
/// for every cell.
pub fn render_row(fire: &DoomFire, scale: usize, y: usize) -> (r: Vec<u8>)
    requires
        fire.wf(),
        0 < scale,
        y < fire.height,
        row_len(fire.width as int, scale as int) <= usize::MAX,
    ensures
        r@ == row_bytes(
            fire.pixel_buffer@,
            fire.palette@,
            fire.width as int,
            scale as int,
            y as int,
        ),
{
    let ghost w = fire.width as int;
    let ghost sc = scale as int;
    let ghost grid = fire.pixel_buffer@;
    let ghost palette = fire.palette@;
    let mut row: Vec<u8> = Vec::new();
    let mut x: usize = 0;
    while x < fire.width
        invariant
            fire.wf(),
            0 < scale,
            y < fire.height,
            x <= fire.width,
            w == fire.width as int,
            sc == scale as int,
            grid == fire.pixel_buffer@,
            palette == fire.palette@,
            row_len(w, sc) <= usize::MAX,
            row@.len() == 3 * (x * sc),
            forall|j: int|
                0 <= j < row@.len() ==> #[trigger] row@[j] == palette[cell_at(
                    grid,
                    w,
                    (j / 3) / sc,
                    y as int,
                ) as int][j % 3],
        decreases fire.width - x,
    {
        proof {
            lemma_cell_places(w, fire.height as int, x as int, y as int, x as int, y as int);
            assert(grid.len() == fire.pixel_buffer.len());
        }
        let level = fire.pixel_buffer[y * fire.width + x];
        let color = fire.palette[level as usize];
        let mut s: usize = 0;
        while s < scale
            invariant
                s <= scale,
                0 < scale,
                x < fire.width,
                w == fire.width as int,
                sc == scale as int,
                row_len(w, sc) <= usize::MAX,
                color == palette[cell_at(grid, w, x as int, y as int) as int],
                row@.len() == 3 * (x * sc + s),
                forall|j: int|
                    0 <= j < row@.len() ==> #[trigger] row@[j] == palette[cell_at(
                        grid,
                        w,
                        (j / 3) / sc,
                        y as int,
                    ) as int][j % 3],
            decreases scale - s,
        {
            proof {
                lemma_fundamental_div_mod_converse(x * sc + s, sc, x as int, s as int);
            }
            row.push(color[0]);
            row.push(color[1]);
            row.push(color[2]);
            s += 1;
        }
        proof {
            assert(x * sc + sc == (x + 1) * sc) by (nonlinear_arith);
        }
        x += 1;
    }
    proof {
        assert(row@ =~= row_bytes(grid, palette, w, sc, y as int));
    }
    row
}

/// Computes the shape of the frame of a grid at a scale. A zero scale is
/// refused, and so is a frame with more bytes than can be addressed.
pub fn frame_shape(width: usize, height: usize, scale: usize) -> (r: Result<
    FrameShape,
    RenderError,
>)
    requires
        0 < width,
        0 < height,
    ensures
        r matches Err(RenderError::ZeroScale) <==> scale == 0,
        r matches Err(RenderError::TooLarge) <==> scale > 0 && frame_len(
            width as int,
            height as int,
            scale as int,
        ) > usize::MAX,
        r matches Ok(shape) ==> {
            &&& shape.width == width * scale
            &&& shape.height == height * scale
            &&& shape.row_len == row_len(width as int, scale as int)
            &&& shape.row_len * shape.height == frame_len(width as int, height as int, scale as int)
        },
{
    if scale == 0 {
        return Err(RenderError::ZeroScale);
    }
    let ghost w = width as int;
    let ghost h = height as int;
    let ghost sc = scale as int;
    let ghost row = row_len(w, sc);
    let ghost total = frame_len(w, h, sc);
    proof {
        assert(w * sc >= w && h * sc >= h && w * sc >= 1 && h * sc >= 1) by (nonlinear_arith)
            requires
                w >= 1,
                h >= 1,
                sc >= 1,
        ;
        assert(total >= row && total >= h * sc && total >= w * sc) by (nonlinear_arith)
            requires
                total == (3 * (w * sc)) * (h * sc),
                row == 3 * (w * sc),
                w * sc >= 1,
                h * sc >= 1,
        ;
    }
    let pixels = match width.checked_mul(scale) {
        Some(n) => n,
        None => {
            return Err(RenderError::TooLarge);
        },
    };
    let lines = match height.checked_mul(scale) {
        Some(n) => n,
        None => {
            return Err(RenderError::TooLarge);
        },
    };
    let row_size = match pixels.checked_mul(BYTES_PER_PIXEL) {
        Some(n) => n,
        None => {
            return Err(RenderError::TooLarge);
        },
    };
    match row_size.checked_mul(lines) {
        Some(_) => Ok(FrameShape { width: pixels, height: lines, row_len: row_size }),
        None => Err(RenderError::TooLarge),
    }
}

/// Renders the fire into a frame of `scale` by `scale` pixels for every
/// cell. A zero scale is refused, and so is a frame with more bytes than can
/// be addressed. The fire is left as it is.
pub fn render_fire_frame(fire: &DoomFire, scale: usize) -> (r: Result<Frame, RenderError>)
    requires
        fire.wf(),
    ensures
        r matches Err(RenderError::ZeroScale) <==> scale == 0,
        r matches Err(RenderError::TooLarge) <==> scale > 0 && frame_len(
            fire.width as int,
            fire.height as int,
            scale as int,
        ) > usize::MAX,
        r matches Ok(frame) ==> {
            &&& frame.wf()
            &&& frame.width == fire.width * scale
            &&& frame.height == fire.height * scale
            &&& frame.bytes@ == frame_bytes(
                fire.pixel_buffer@,
                fire.palette@,
                fire.width as int,
                fire.height as int,
                scale as int,
            )
        },
{
    let shape = match frame_shape(fire.width, fire.height, scale) {
        Ok(shape) => shape,
        Err(error) => {
            return Err(error);
        },
    };
    let ghost w = fire.width as int;
    let ghost h = fire.height as int;
    let ghost sc = scale as int;
    let ghost grid = fire.pixel_buffer@;
    let ghost palette = fire.palette@;
    let ghost row = row_len(w, sc);
    let ghost total = frame_len(w, h, sc);
    proof {
        assert(0 < row) by (nonlinear_arith)
            requires
                row == 3 * (w * sc),
                w >= 1,
                sc >= 1,
        ;
    }
    let mut bytes: Vec<u8> = Vec::new();
    let mut y: usize = 0;
    while y < fire.height
        invariant
            fire.wf(),
            0 < scale,
            y <= fire.height,
            w == fire.width as int,
            h == fire.height as int,
            sc == scale as int,
            grid == fire.pixel_buffer@,
            palette == fire.palette@,
            row == row_len(w, sc),
            0 < row <= usize::MAX,
            total == frame_len(w, h, sc),
            bytes@.len() == row * (y * sc),
            forall|k: int|
                0 <= k < bytes@.len() ==> #[trigger] bytes@[k] == row_bytes(
                    grid,
                    palette,
                    w,
                    sc,
                    (k / row) / sc,
                )[k % row],
        decreases fire.height - y,
    {
        let line = render_row(fire, scale, y);
        let mut t: usize = 0;
        while t < scale
            invariant
                t <= scale,
                0 < scale,
                y < fire.height,
                w == fire.width as int,
                sc == scale as int,
                row == row_len(w, sc),
                0 < row,
                line@ == row_bytes(grid, palette, w, sc, y as int),
                bytes@.len() == row * (y * sc + t),
                forall|k: int|
                    0 <= k < bytes@.len() ==> #[trigger] bytes@[k] == row_bytes(
                        grid,
                        palette,
                        w,
                        sc,
                        (k / row) / sc,
                    )[k % row],
            decreases scale - t,
        {
            let ghost before = bytes@;
            let ghost oy = y * sc + t;
            bytes.extend_from_slice(line.as_slice());
            proof {
                assert(row * (oy + 1) == row * oy + row) by (nonlinear_arith);
                lemma_fundamental_div_mod_converse(oy, sc, y as int, t as int);
                assert forall|k: int| 0 <= k < bytes@.len() implies #[trigger] bytes@[k]
                    == row_bytes(grid, palette, w, sc, (k / row) / sc)[k % row] by {
                    if k >= before.len() {
                        let j = k - before.len();
                        lemma_fundamental_div_mod_converse(k, row, oy, j);
                        assert(bytes@[k] == line@[j]);
                    } else {
                        assert(bytes@[k] == before[k]);
                    }
                }
            }
            t += 1;
        }
        proof {
            assert(y * sc + sc == (y + 1) * sc) by (nonlinear_arith);
        }
        y += 1;
    }
    proof {
        assert(bytes@ =~= frame_bytes(grid, palette, w, h, sc));
        assert(3 * ((w * sc) * (h * sc)) == (3 * (w * sc)) * (h * sc)) by (nonlinear_arith);
    }
    Ok(Frame { width: shape.width, height: shape.height, bytes })
}

/// Renders the fire one pixel per cell; see [`render_fire_frame`].
pub fn render_fire_frame_to_image(fire: &DoomFire) -> (r: Result<Frame, RenderError>)
    requires
        fire.wf(),
    ensures
        !(r matches Err(RenderError::ZeroScale)),
        r matches Err(RenderError::TooLarge) <==> frame_len(
            fire.width as int,
            fire.height as int,
            1,
        ) > usize::MAX,
        r matches Ok(frame) ==> {
            &&& frame.wf()
            &&& frame.width == fire.width
            &&& frame.height == fire.height
            &&& frame.bytes@ == frame_bytes(
                fire.pixel_buffer@,
                fire.palette@,
                fire.width as int,
                fire.height as int,
                1,
            )
        },
{
    render_fire_frame(fire, 1)
}

} // verus!
