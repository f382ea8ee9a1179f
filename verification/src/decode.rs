//! Decoding of the flat arrays a game engine hands over: coordinate pairs,
//! walkability bytes, sizes and signed indices.
use vstd::prelude::*;

use crate::pathfinding::TilePos;

verus! {

/// `v` clamped to `[lo, hi]`.
pub open spec fn clamp_to(v: int, lo: int, hi: int) -> int {
    if v < lo {
        lo
    } else if v > hi {
        hi
    } else {
        v
    }
}

/// `v` clamped to the `i16` range.
pub fn clamp_i16(v: i32) -> (r: i16)
    ensures
        r == clamp_to(v as int, i16::MIN as int, i16::MAX as int),
{
    if v < i16::MIN as i32 {
        i16::MIN
    } else if v > i16::MAX as i32 {
        i16::MAX
    } else {
        v as i16
    }
}

/// `v` clamped to `[lo, i16::MAX]`, for `lo` in the `i16` range.
pub fn clamp_size(v: i32, lo: i16) -> (r: i16)
    ensures
        r == clamp_to(v as int, lo as int, i16::MAX as int),
{
    if v < lo as i32 {
        lo
    } else if v > i16::MAX as i32 {
        i16::MAX
    } else {
        v as i16
    }
}

/// The tile of the `k`-th pair of a flat `[x0, y0, x1, y1, ...]` sequence,
/// each coordinate clamped to the `i16` range.
pub open spec fn pair_tile(tiles: Seq<i32>, k: int) -> TilePos {
    TilePos {
        x: clamp_to(tiles[2 * k] as int, i16::MIN as int, i16::MAX as int) as i16,
        y: clamp_to(tiles[2 * k + 1] as int, i16::MIN as int, i16::MAX as int) as i16,
    }
}

/// Decode a flat `[x0, y0, x1, y1, ...]` sequence into tiles. A trailing
/// unpaired value is dropped; out-of-range coordinates are clamped to the
/// `i16` range.
pub fn tiles_from_i32_pairs(tiles: &[i32]) -> (r: Vec<TilePos>)
    ensures
        r@.len() == tiles@.len() / 2,
        forall|k: int| 0 <= k < r@.len() ==> #[trigger] r@[k] == pair_tile(tiles@, k),
{
    let len = tiles.len();
    let n = len / 2;
    let mut r: Vec<TilePos> = Vec::new();
    let mut k: usize = 0;
    while k < n
        invariant
            len == tiles@.len(),
            n == len / 2,
            k <= n,
            r@.len() == k,
            forall|j: int| 0 <= j < k ==> #[trigger] r@[j] == pair_tile(tiles@, j),
        decreases n - k,
    {
        assert(k + k + 1 < len) by (nonlinear_arith)
            requires
                k < len / 2,
        ;
        let i: usize = k + k;
        let x = clamp_i16(tiles[i]);
        let y = clamp_i16(tiles[i + 1]);
        r.push(TilePos::new(x, y));
        k = k + 1;
    }
    r
}

/// Walkability from bytes: `0` is blocked, anything else walkable.
pub fn walkable_from_bytes(cells: &[u8]) -> (r: Vec<bool>)
    ensures
        r@.len() == cells@.len(),
        forall|i: int| 0 <= i < r@.len() ==> #[trigger] r@[i] == (cells@[i] != 0),
{
    let mut r: Vec<bool> = Vec::new();
    let mut i: usize = 0;
    while i < cells.len()
        invariant
            i <= cells@.len(),
            r@.len() == i,
            forall|j: int| 0 <= j < i ==> #[trigger] r@[j] == (cells@[j] != 0),
        decreases cells@.len() - i,
    {
        r.push(cells[i] != 0);
        i = i + 1;
    }
    r
}

/// A signed index into a collection of `len` items: `Some` exactly when it
/// is non-negative and below `len`.
pub fn index_in(i: i64, len: usize) -> (r: Option<usize>)
    ensures
        r matches Some(k) ==> k == i && 0 <= i < len,
        r is None ==> i < 0 || i >= len,
{
    if i < 0 {
        return None;
    }
    if (i as u64) >= (len as u64) {
        return None;
    }
    Some(i as usize)
}

/// A walkable map from an engine's byte buffer: the sizes are clamped to
/// `0..=i16::MAX`, and the buffer is accepted only when it holds exactly one
/// byte per tile (`0` blocked, anything else walkable).
pub fn walkable_map_from_bytes(width: i32, height: i32, cells: &[u8]) -> (r: Option<
    (i16, i16, Vec<bool>),
>)
    ensures
        ({
            let w = clamp_to(width as int, 0, i16::MAX as int);
            let h = clamp_to(height as int, 0, i16::MAX as int);
            &&& cells@.len() == w * h ==> (r matches Some((rw, rh, bools)) && rw == w && rh == h
                && bools@.len() == cells@.len() && forall|i: int|
                0 <= i < cells@.len() ==> #[trigger] bools@[i] == (cells@[i] != 0))
            &&& cells@.len() != w * h ==> r is None
        }),
{
    let w = clamp_size(width, 0);
    let h = clamp_size(height, 0);
    assert((w as int) * (h as int) <= i16::MAX * i16::MAX) by (nonlinear_arith)
        requires
            0 <= w <= i16::MAX,
            0 <= h <= i16::MAX,
    ;
    let expected: usize = (w as usize) * (h as usize);
    if cells.len() != expected {
        return None;
    }
    Some((w, h, walkable_from_bytes(cells)))
}

} // verus!
