//! The random source: the thread-local generator of `rand`, and the draws
//! and colours taken from it.
use vstd::prelude::*;
use rand::Rng;
use rand::rngs::ThreadRng;
use crate::grid::{DRAW_SCALE, draws_fit, draws_view};

verus! {

/// rand's thread-local generator, carried through as an opaque handle.
#[verifier::external_type_specification]
#[verifier::external_body]
pub struct ExThreadRng(rand::rngs::ThreadRng);

/// Relies on rand::thread_rng: a handle to this thread's generator.
pub assume_specification[ rand::thread_rng ]() -> rand::rngs::ThreadRng;

/// Relies on rand::Rng::gen_range over a half-open `u32` range: the value
/// lies in `[0, bound)`; the call panics on an empty range, which
/// `bound > 0` rules out.
#[verifier::external_body]
fn gen_below(rng: &mut ThreadRng, bound: u32) -> (r: u32)
    requires
        bound > 0,
    ensures
        r < bound,
{
    rng.gen_range(0..bound)
}

/// An RGB colour whose components are drawn uniformly from `[0, 255)`.
pub fn random_color(rng: &mut ThreadRng) -> (r: (u8, u8, u8))
    ensures
        r.0 < 255,
        r.1 < 255,
        r.2 < 255,
{
    let red = gen_below(rng, 255);
    let green = gen_below(rng, 255);
    let blue = gen_below(rng, 255);
    (red as u8, green as u8, blue as u8)
}

/// One draw below `DRAW_SCALE` for each cell of a `width` by `height` board.
pub fn random_draws(rng: &mut ThreadRng, width: usize, height: usize) -> (r: Vec<Vec<u32>>)
    ensures
        draws_fit(draws_view(r@), width as int, height as int),
{
    let mut draws: Vec<Vec<u32>> = Vec::new();
    let mut y: usize = 0;
    while y < height
        invariant
            0 <= y <= height,
            draws@.len() == y,
            forall|j: int| 0 <= j < y ==> (#[trigger] draws@[j])@.len() == width,
            forall|j: int, i: int| 0 <= j < y && 0 <= i < width ==> draws@[j]@[i] < DRAW_SCALE,
        decreases height - y,
    {
        let mut row: Vec<u32> = Vec::new();
        let mut x: usize = 0;
        while x < width
            invariant
                0 <= x <= width,
                row@.len() == x,
                forall|i: int| 0 <= i < x ==> row@[i] < DRAW_SCALE,
            decreases width - x,
        {
            row.push(gen_below(rng, DRAW_SCALE));
            x = x + 1;
        }
        draws.push(row);
        y = y + 1;
    }
    let ghost d = draws_view(draws@);
    assert forall|j: int, i: int| 0 <= j < height && 0 <= i < width implies d[j][i]
        < DRAW_SCALE by {
        assert(d[j] == draws@[j]@);
    }
    assert forall|j: int| 0 <= j < height implies (#[trigger] d[j]).len() == width by {
        assert(d[j] == draws@[j]@);
    }
    draws
}

} // verus!
