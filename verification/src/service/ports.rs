//! Rows of random cell colors.
use rand::Rng;
use vstd::prelude::*;

verus! {

#[verifier::external_type_specification]
#[verifier::external_body]
pub struct ExThreadRng(rand::rngs::ThreadRng);

/// `rand::thread_rng`: a handle on the thread's random generator. Nothing
/// is stated of it.
#[verifier::external_body]
fn thread_rng() -> rand::rngs::ThreadRng {
    rand::thread_rng()
}

/// `Rng::gen_range(0..high)`: a value drawn from `rng` below `high`. The
/// range must not be empty (it panics on an empty one); which value comes
/// out is left open.
#[verifier::external_body]
fn gen_below(rng: &mut rand::rngs::ThreadRng, high: u8) -> (v: u8)
    requires
        high > 0,
    ensures
        v < high,
{
    rng.gen_range(0..high)
}

/// A random channel value below 255.
fn random_rgb() -> (v: u8)
    ensures
        v < 255,
{
    let mut rng = thread_rng();
    gen_below(&mut rng, 255)
}

/// A cell is a margin: the first or the last of the row.
pub open spec fn is_margin(n: int, width: int) -> bool {
    n == 0 || n == width - 1
}

/// A row's cells hold exactly: no color in the margins, a color with every
/// channel below 255 elsewhere.
pub open spec fn row_ok(row: Seq<Option<(u8, u8, u8)>>, width: int) -> bool {
    &&& row.len() == width
    &&& forall|n: int|
        0 <= n < width ==> match #[trigger] row[n] {
            None => is_margin(n, width),
            Some((r, g, b)) => !is_margin(n, width) && r < 255 && g < 255 && b < 255,
        }
}

/// Cells of a row that are not margins.
pub open spec fn interior_count(width: int) -> int {
    if width >= 2 {
        width - 2
    } else {
        0
    }
}

/// A row of `width` cells from the colors drawn for it: the margins blank,
/// interior cell `n` holding draw `n - 1`.
pub open spec fn placed(row: Seq<Option<(u8, u8, u8)>>, width: int, draws: Seq<(u8, u8, u8)>) -> bool {
    &&& row.len() == width
    &&& forall|n: int|
        0 <= n < width ==> #[trigger] row[n] == (if is_margin(n, width) {
            None
        } else {
            Some(draws[n - 1])
        })
}

/// Lays the drawn colors out along a row of `width` cells.
pub fn place_colors(width: usize, draws: &Vec<(u8, u8, u8)>) -> (row: Vec<Option<(u8, u8, u8)>>)
    requires
        draws@.len() >= interior_count(width as int),
    ensures
        placed(row@, width as int, draws@),
{
    let mut row: Vec<Option<(u8, u8, u8)>> = Vec::new();
    let mut n: usize = 0;
    while n < width
        invariant
            n <= width,
            draws@.len() >= interior_count(width as int),
            row@.len() == n,
            forall|k: int|
                0 <= k < n ==> #[trigger] row@[k] == (if is_margin(k, width as int) {
                    None
                } else {
                    Some(draws@[k - 1])
                }),
        decreases width - n,
    {
        let cell = if n == 0 || n == width - 1 {
            None
        } else {
            Some(draws[n - 1])
        };
        row.push(cell);
        n = n + 1;
    }
    row
}

/// A row of `width` cells: blank margins, and between them one random color
/// per cell, drawn in order.
fn fill_row(width: usize) -> (row: Vec<Option<(u8, u8, u8)>>)
    ensures
        row_ok(row@, width as int),
{
    let count = if width >= 2 {
        width - 2
    } else {
        0
    };
    let mut draws: Vec<(u8, u8, u8)> = Vec::new();
    let mut i: usize = 0;
    while i < count
        invariant
            i <= count,
            draws@.len() == i,
            forall|k: int|
                0 <= k < i ==> (#[trigger] draws@[k]).0 < 255 && draws@[k].1 < 255 && draws@[k].2
                    < 255,
        decreases count - i,
    {
        let r = random_rgb();
        let g = random_rgb();
        let b = random_rgb();
        draws.push((r, g, b));
        i = i + 1;
    }
    let row = place_colors(width, &draws);
    assert forall|n: int| 0 <= n < width implies match #[trigger] row@[n] {
        None => is_margin(n, width as int),
        Some((r, g, b)) => !is_margin(n, width as int) && r < 255 && g < 255 && b < 255,
    } by {
        if !is_margin(n, width as int) {
            assert(row@[n] == Some(draws@[n - 1]));
        }
    }
    row
}

/// `width` rows of `width` cells, margins blank and every other cell a
/// random color.
pub fn ports_matrix(width: usize) -> (m: Vec<Vec<Option<(u8, u8, u8)>>>)
    ensures
        m@.len() == width,
        forall|i: int| 0 <= i < width ==> row_ok((#[trigger] m@[i])@, width as int),
{
    let mut m: Vec<Vec<Option<(u8, u8, u8)>>> = Vec::new();
    let mut i: usize = 0;
    while i < width
        invariant
            i <= width,
            m@.len() == i,
            forall|k: int| 0 <= k < i ==> row_ok((#[trigger] m@[k])@, width as int),
        decreases width - i,
    {
        m.push(fill_row(width));
        i = i + 1;
    }
    m
}

} // verus!
