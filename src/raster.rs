//! The output grid: the order in which pixels are visited and the assembly of
//! quantized colors into an 8-bit RGB image buffer of the `image` crate.
use vstd::prelude::*;

verus! {

/// An 8-bit RGB pixel: red, green, blue.
pub type Rgb8 = (u8, u8, u8);

/// Channel `c` (0 red, 1 green, 2 blue) of a pixel.
pub open spec fn channel(p: Rgb8, c: int) -> u8 {
    if c == 0 {
        p.0
    } else if c == 1 {
        p.1
    } else {
        p.2
    }
}

/// The coordinates of a `width` by `height` grid.
pub open spec fn in_grid(width: u32, height: u32, p: (u32, u32)) -> bool {
    p.0 < width && p.1 < height
}

/// Offset of the first byte of pixel `(x, y)` in a row-major packed RGB buffer.
pub open spec fn byte_offset(width: u32, x: u32, y: u32) -> int {
    3 * (y as int * width as int + x as int)
}

/// An image being assembled: an RGB image buffer of the `image` crate with
/// 8-bit channels, read and written only through the functions below.
#[verifier::external_body]
pub struct RgbGrid {
    img: image::ImageBuffer<image::Rgb<u8>, Vec<u8>>,
}

/// What a grid holds: the pixel at each in-bounds `(x, y)`.
pub uninterp spec fn pixels_of(g: RgbGrid) -> Map<(u32, u32), Rgb8>;

/// The `(width, height)` a grid was made with.
pub uninterp spec fn dims_of(g: RgbGrid) -> (u32, u32);

/// Relies on image::ImageBuffer::new: a buffer of the given dimensions whose
/// every pixel is zero. It panics when `3 * width`, or `3 * width * height`,
/// overflows `usize`.
#[verifier::external_body]
fn new_grid(width: u32, height: u32) -> (r: RgbGrid)
    requires
        3 * (width as int) <= usize::MAX,
        3 * (width as int) * (height as int) <= usize::MAX,
    ensures
        dims_of(r) == (width, height),
        pixels_of(r) == Map::new(|p: (u32, u32)| in_grid(width, height, p), |p: (u32, u32)| (0u8, 0u8, 0u8)),
{
    RgbGrid { img: image::ImageBuffer::new(width, height) }
}

/// Relies on image::ImageBuffer::put_pixel: overwrites the pixel at `(x, y)`
/// and nothing else. It panics when `(x, y)` is out of bounds.
#[verifier::external_body]
fn put_grid_pixel(g: &mut RgbGrid, x: u32, y: u32, p: Rgb8)
    requires
        in_grid(dims_of(*old(g)).0, dims_of(*old(g)).1, (x, y)),
    ensures
        dims_of(*final(g)) == dims_of(*old(g)),
        pixels_of(*final(g)) == pixels_of(*old(g)).insert((x, y), p),
{
    g.img.put_pixel(x, y, image::Rgb([p.0, p.1, p.2]))
}

/// Relies on image::ImageBuffer::into_raw: the packed sample buffer, row by
/// row, three bytes (red, green, blue) per pixel.
#[verifier::external_body]
fn grid_into_raw(g: RgbGrid) -> (r: Vec<u8>)
    ensures
        r@.len() == 3 * dims_of(g).0 as int * dims_of(g).1 as int,
        forall|x: u32, y: u32, c: int|
            in_grid(dims_of(g).0, dims_of(g).1, (x, y)) && 0 <= c < 3
                ==> #[trigger] r@[byte_offset(dims_of(g).0, x, y) + c] == channel(
                pixels_of(g)[(x, y)],
                c,
            ),
{
    g.img.into_raw()
}

/// Position in visiting order of the pixel `(x, y)`: columns left to right,
/// and within a column rows top to bottom.
pub open spec fn visit_index(height: u32, x: u32, y: u32) -> int {
    x as int * height as int + y as int
}

proof fn lemma_earlier_column(height: u32, a: u32, b: u32, x: u32)
    requires
        a < x,
        b < height,
    ensures
        visit_index(height, a, b) < x as int * height as int,
        0 <= visit_index(height, a, b),
{
    assert((a as int * height as int + b as int) < x as int * height as int) by (nonlinear_arith)
        requires
            a < x,
            b < height,
    ;
    assert(0 <= a as int * height as int) by (nonlinear_arith);
}

/// The pixel coordinates of a `width` by `height` grid in visiting order: the
/// `k`-th entry is `(k / height, k % height)`.
pub fn pixel_order(width: u32, height: u32) -> (r: Vec<(u32, u32)>)
    requires
        width as int * height as int <= usize::MAX,
    ensures
        r@.len() == width as int * height as int,
        forall|x: u32, y: u32| #[trigger] in_grid(width, height, (x, y))
            ==> r@[visit_index(height, x, y)] == (x, y),
{
    let mut r: Vec<(u32, u32)> = Vec::new();
    let mut x: u32 = 0;
    while x < width
        invariant
            x <= width,
            width as int * height as int <= usize::MAX,
            r@.len() == x as int * height as int,
            forall|a: u32, b: u32| a < x && b < height ==> r@[#[trigger] visit_index(height, a, b)] == (a, b),
        decreases width - x,
    {
        let mut y: u32 = 0;
        while y < height
            invariant
                x < width,
                y <= height,
                width as int * height as int <= usize::MAX,
                r@.len() == x as int * height as int + y as int,
                forall|a: u32, b: u32| a < x && b < height ==> r@[#[trigger] visit_index(height, a, b)] == (a, b),
                forall|b: u32| b < y ==> r@[#[trigger] visit_index(height, x, b)] == (x, b),
            decreases height - y,
        {
            proof {
                assert((x as int + 1) * height as int <= width as int * height as int) by (nonlinear_arith)
                    requires
                        x < width,
                ;
            }
            let ghost before = r@;
            r.push((x, y));
            proof {
                assert forall|a: u32, b: u32| a < x && b < height implies r@[#[trigger] visit_index(height, a, b)] == (a, b) by {
                    lemma_earlier_column(height, a, b, x);
                    assert(r@[visit_index(height, a, b)] == before[visit_index(height, a, b)]);
                }
            }
            y = y + 1;
        }
        proof {
            assert(r@.len() == (x as int + 1) * height as int) by (nonlinear_arith)
                requires
                    r@.len() == x as int * height as int + height as int,
            ;
        }
        x = x + 1;
    }
    r
}

/// Assembles the image of a `width` by `height` render whose pixel colors come
/// in visiting order (the order of `pixel_order`): pixel `(x, y)` gets
/// `colors[x * height + y]`. The result is the packed buffer of the `image`
/// crate: rows top to bottom, three bytes (red, green, blue) per pixel.
pub fn assemble(width: u32, height: u32, colors: &Vec<Rgb8>) -> (r: Vec<u8>)
    requires
        colors@.len() == width as int * height as int,
        3 * (width as int) <= usize::MAX,
        3 * (width as int) * (height as int) <= usize::MAX,
    ensures
        r@.len() == 3 * (width as int) * (height as int),
        forall|x: u32, y: u32, c: int|
            in_grid(width, height, (x, y)) && 0 <= c < 3
                ==> #[trigger] r@[byte_offset(width, x, y) + c] == channel(
                colors@[visit_index(height, x, y)],
                c,
            ),
{
    let mut g = new_grid(width, height);
    let mut x: u32 = 0;
    let mut k: usize = 0;
    while x < width
        invariant
            x <= width,
            colors@.len() == width as int * height as int,
            3 * (width as int) * (height as int) <= usize::MAX,
            k == x as int * height as int,
            dims_of(g) == (width, height),
            forall|a: u32, b: u32| a < x && b < height
                ==> #[trigger] pixels_of(g)[(a, b)] == colors@[visit_index(height, a, b)],
        decreases width - x,
    {
        let mut y: u32 = 0;
        while y < height
            invariant
                x < width,
                y <= height,
                colors@.len() == width as int * height as int,
                3 * (width as int) * (height as int) <= usize::MAX,
                k == x as int * height as int + y as int,
                dims_of(g) == (width, height),
                forall|a: u32, b: u32| ((a < x && b < height) || (a == x && b < y))
                    ==> #[trigger] pixels_of(g)[(a, b)] == colors@[visit_index(height, a, b)],
            decreases height - y,
        {
            proof {
                lemma_earlier_column(height, x, y, width);
                assert(width as int * height as int <= 3 * (width as int) * (height as int)) by (nonlinear_arith);
            }
            put_grid_pixel(&mut g, x, y, colors[k]);
            k = k + 1;
            y = y + 1;
        }
        proof {
            assert(k == (x as int + 1) * height as int) by (nonlinear_arith)
                requires
                    k == x as int * height as int + height as int,
            ;
        }
        x = x + 1;
    }
    grid_into_raw(g)
}

} // verus!
