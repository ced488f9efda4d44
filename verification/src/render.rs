//! The renderer: the size of the row-major pixel buffer, the mapping from
//! a linear pixel index to a (column, row) coordinate, the grayscale shade
//! of one escape-time result, and the parallel fill of the whole buffer.

use rayon::iter::IntoParallelIterator;
use rayon::iter::ParallelIterator;
use vstd::prelude::*;

verus! {

/// Length of the pixel buffer for a `width` x `height` image, or `None`
/// when that product does not fit in `usize`.
pub fn pixel_count(width: usize, height: usize) -> (r: Option<usize>)
    ensures
        match r {
            Some(n) => n == width * height,
            None => width * height > usize::MAX,
        },
{
    width.checked_mul(height)
}

/// The (column, row) coordinate encoded by a linear index into a row-major
/// buffer of rows of length `width`.
pub fn index_to_pixel(index: usize, width: usize) -> (p: (usize, usize))
    requires
        width > 0,
    ensures
        p.0 == index % width,
        p.1 == index / width,
        p.0 < width,
        p.1 * width + p.0 == index,
{
    let col: usize = index % width;
    let row: usize = index / width;
    proof {
        vstd::arithmetic::div_mod::lemma_fundamental_div_mod(index as int, width as int);
    }
    (col, row)
}

/// Grayscale shade of one pixel: a point that never escaped is black, and
/// one that escaped after `v` iterations is `255 - v`, so the sooner the
/// escape, the brighter the pixel.
pub fn pixel_shade(t: Option<usize>) -> (b: u8)
    requires
        t matches Some(v) ==> v <= 255,
    ensures
        match t {
            None => b == 0,
            Some(v) => b == 255 - v,
        },
{
    match t {
        None => 0,
        Some(v) => 255 - (v as u8),
    }
}

/// Relies on rayon's parallel map over an index range: every index in
/// `[0, count)` is handed to `f` exactly once, and the results are
/// collected in index order, whatever the order of completion.
#[verifier::external_body]
fn par_map_bytes<F: Fn(usize) -> u8 + Sync + Send>(count: usize, f: F) -> (r: Vec<u8>)
    requires
        forall|i: usize| i < count ==> call_requires(f, (i,)),
    ensures
        r@.len() == count,
        forall|i: int| 0 <= i < count ==> call_ensures(f, (i as usize,), r@[i]),
{
    (0..count).into_par_iter().map(f).collect()
}

/// Fill the row-major pixel buffer of a `width` x `height` image: the
/// shade of every linear index in `[0, width * height)` is computed by
/// `f`, in parallel, and the buffer holds the results in index order, so
/// that slot `row * width + col` holds the shade computed for its own
/// index, whatever order the computations finished in.
pub fn render<F: Fn(usize) -> u8 + Sync + Send>(width: usize, height: usize, f: F) -> (r: Vec<u8>)
    requires
        width * height <= usize::MAX,
        forall|i: usize| i < width * height ==> call_requires(f, (i,)),
    ensures
        r@.len() == width * height,
        forall|i: int| 0 <= i < width * height ==> call_ensures(f, (i as usize,), r@[i]),
{
    let count = match pixel_count(width, height) {
        Some(n) => n,
        None => unreached(),
    };
    par_map_bytes(count, f)
}

/// Rendering is deterministic up to the pixel function: whenever `f`'s
/// contract fixes one shade per index, any two buffers that `render` may
/// return for the same `f` and bounds are byte-identical, whatever order
/// the parallel computations finished in.
pub proof fn lemma_render_deterministic<F: Fn(usize) -> u8>(
    f: F,
    width: usize,
    height: usize,
    r1: Seq<u8>,
    r2: Seq<u8>,
)
    requires
        r1.len() == width * height,
        r2.len() == width * height,
        forall|i: int| 0 <= i < width * height ==> call_ensures(f, (i as usize,), r1[i]),
        forall|i: int| 0 <= i < width * height ==> call_ensures(f, (i as usize,), r2[i]),
        forall|i: usize, b1: u8, b2: u8|
            #[trigger] call_ensures(f, (i,), b1) && #[trigger] call_ensures(f, (i,), b2)
                ==> b1 == b2,
    ensures
        r1 == r2,
{
    assert forall|i: int| 0 <= i < r1.len() implies r1[i] == r2[i] by {
        assert(call_ensures(f, (i as usize,), r1[i]));
        assert(call_ensures(f, (i as usize,), r2[i]));
    }
    assert(r1 =~= r2);
}

} // verus!
