use vstd::prelude::*;

use crate::fits_i32;
use crate::world::hex::{cube_s, Hex};
use crate::world::{OffsetTile, EVEN, ODD};

verus! {

/// The low bit of `x` as `x & 1` reads it: 0 for even and 1 for odd `x`,
/// negative values included.
pub open spec fn parity(x: int) -> int {
    x % 2
}

/// The two offset conventions that the conversions accept.
pub open spec fn valid_offset(offset: int) -> bool {
    offset == EVEN || offset == ODD
}

/// The half-hex shift of a line with coordinate `x` under `offset`:
/// `(x + offset * (x & 1)) / 2`, an exact halving.
pub open spec fn offset_shift(offset: int, x: int) -> int {
    (x + offset * parity(x)) / 2
}

/// The offset tile of a hex in the flat-topped ("q") layout, as the pair of
/// signed column and row before any cast.
pub open spec fn qoffset_of(offset: int, h: (int, int)) -> (int, int) {
    (h.0, h.1 + offset_shift(offset, h.0))
}

/// The unsigned offset tile of a hex, as `qoffset_from_cube` returns it.
pub open spec fn qoffset_tile(offset: int, h: (int, int)) -> (u32, u32) {
    (qoffset_of(offset, h).0 as u32, qoffset_of(offset, h).1 as u32)
}

/// The hex of a signed column/row pair in the flat-topped ("q") layout.
pub open spec fn qcube_of(offset: int, col: int, row: int) -> (int, int) {
    (col, row - offset_shift(offset, col))
}

/// An unsigned tile coordinate read as an `i32`, as `x as i32` does.
pub open spec fn as_signed(x: u32) -> int {
    (x as i32) as int
}

/// When converting `h` to offset coordinates runs without a panic.
pub open spec fn qoffset_from_ok(offset: int, h: (int, int)) -> bool {
    &&& valid_offset(offset)
    &&& fits_i32(h.0 + offset * parity(h.0))
    &&& fits_i32(qoffset_of(offset, h).1)
}

/// When converting the column/row pair to a hex runs without a panic.
pub open spec fn qoffset_to_ok(offset: int, col: int, row: int) -> bool {
    let h = qcube_of(offset, col, row);
    &&& valid_offset(offset)
    &&& fits_i32(col + offset * parity(col))
    &&& fits_i32(h.1)
    &&& col != i32::MIN
    &&& fits_i32(cube_s(h))
    &&& fits_i32(h.0 + h.1)
}

/// The row-shoved ("r") layout: the signed column and row of a hex.
pub open spec fn roffset_of(offset: int, h: (int, int)) -> (int, int) {
    (h.0 + offset_shift(offset, h.1), h.1)
}

/// When converting `h` to row-shoved offset coordinates runs without a panic.
pub open spec fn roffset_from_ok(offset: int, h: (int, int)) -> bool {
    &&& valid_offset(offset)
    &&& fits_i32(h.1 + offset * parity(h.1))
    &&& fits_i32(roffset_of(offset, h).0)
}

/// `x & 1`.
fn low_bit(x: i32) -> (b: i32)
    ensures
        b == parity(x as int),
{
    let b = x & 1;
    assert(b == 0 || b == 1) by (bit_vector)
        requires
            b == x & 1,
    ;
    assert((x & 1 == 0) == (x % 2 == 0)) by (bit_vector);
    b
}

/// `(x + offset * (x & 1)) / 2` for a valid offset.
fn shift_of(offset: i32, x: i32) -> (d: i32)
    requires
        valid_offset(offset as int),
        fits_i32(x + offset * parity(x as int)),
    ensures
        d == offset_shift(offset as int, x as int),
{
    let t = x + offset * low_bit(x);
    assert(t % 2 == 0);
    t / 2
}

/**
 * For flat rotation
 */
pub fn qoffset_from_cube(offset: i32, h: &Hex) -> (t: OffsetTile)
    requires
        qoffset_from_ok(offset as int, h@),
    ensures
        t@ == qoffset_tile(offset as int, h@),
{
    let col = h.get_q() as isize;
    let row: i32 = h.get_r() + shift_of(offset, h.get_q());
    OffsetTile::new(col as u32, row as u32)
}

pub fn qoffset_from_cube_offsets(offset: i32, h: &Hex) -> (t: (isize, isize))
    requires
        qoffset_from_ok(offset as int, h@),
    ensures
        t.0 == qoffset_of(offset as int, h@).0,
        t.1 == qoffset_of(offset as int, h@).1,
{
    let col = h.get_q() as isize;
    let row: i32 = h.get_r() + shift_of(offset, h.get_q());
    (col, row as isize)
}

/**
 * For flat rotation
 */
pub fn qoffset_to_cube(offset: i32, tile: OffsetTile) -> (h: Hex)
    requires
        qoffset_to_ok(offset as int, as_signed(tile@.0), as_signed(tile@.1)),
    ensures
        h@ == qcube_of(offset as int, as_signed(tile@.0), as_signed(tile@.1)),
{
    let col = tile.get_x() as i32;
    let row = tile.get_y() as i32;
    let q = col;
    let r: i32 = row - shift_of(offset, col);
    let s = -q - r;
    Hex::new(q, r, s)
}

pub fn qoffset_to_cube_offsets(offset: i32, tile: (u32, u32)) -> (h: Hex)
    requires
        qoffset_to_ok(offset as int, as_signed(tile.0), as_signed(tile.1)),
    ensures
        h@ == qcube_of(offset as int, as_signed(tile.0), as_signed(tile.1)),
{
    let col = tile.0 as i32;
    let row = tile.1 as i32;
    let q = col;
    let r: i32 = row - shift_of(offset, col);
    let s = -q - r;
    Hex::new(q, r, s)
}

pub fn roffset_from_cube(offset: i32, h: Hex) -> (t: (u32, u32))
    requires
        roffset_from_ok(offset as int, h@),
    ensures
        t == (roffset_of(offset as int, h@).0 as u32, roffset_of(offset as int, h@).1 as u32),
{
    let col: i32 = h.get_q() + shift_of(offset, h.get_r());
    let row: i32 = h.get_r();
    (col as u32, row as u32)
}

} // verus!

verus! {

/// Reading an `i32` value as `u32` and back gives the value again.
proof fn lemma_signed_round_trip(x: int)
    requires
        fits_i32(x),
    ensures
        as_signed(x as u32) == x,
{
    let v = x as i32;
    assert(((v as u32) as i32) == v) by (bit_vector);
    assert(x as u32 == v as u32);
}

/// Reading a `u32` as `i32` and back gives the value again.
proof fn lemma_unsigned_round_trip(x: u32)
    ensures
        as_signed(x) as u32 == x,
{
    assert(((x as i32) as u32) == x) by (bit_vector);
}

/// Converting a hex to offset coordinates and back gives the hex again
/// (for either offset convention, whenever both conversions are defined).
pub proof fn lemma_qoffset_round_trip(offset: int, h: (int, int))
    requires
        qoffset_from_ok(offset, h),
        fits_i32(h.0),
        fits_i32(h.1),
        fits_i32(cube_s(h)),
        fits_i32(h.0 + h.1),
        h.0 != i32::MIN,
    ensures
        qoffset_to_ok(
            offset,
            as_signed(qoffset_tile(offset, h).0),
            as_signed(qoffset_tile(offset, h).1),
        ),
        qcube_of(offset, as_signed(qoffset_tile(offset, h).0), as_signed(qoffset_tile(offset, h).1))
            == h,
{
    lemma_signed_round_trip(qoffset_of(offset, h).0);
    lemma_signed_round_trip(qoffset_of(offset, h).1);
}

/// Converting an offset tile to a hex and back gives the tile again.
pub proof fn lemma_qoffset_tile_round_trip(offset: int, t: (u32, u32))
    requires
        qoffset_to_ok(offset, as_signed(t.0), as_signed(t.1)),
    ensures
        qoffset_from_ok(offset, qcube_of(offset, as_signed(t.0), as_signed(t.1))),
        qoffset_tile(offset, qcube_of(offset, as_signed(t.0), as_signed(t.1))) == t,
{
    lemma_unsigned_round_trip(t.0);
    lemma_unsigned_round_trip(t.1);
}

} // verus!

verus! {

/// Distinct hexes have distinct offset tiles.
pub proof fn lemma_qoffset_injective(offset: int, a: (int, int), b: (int, int))
    requires
        qoffset_from_ok(offset, a),
        qoffset_from_ok(offset, b),
        fits_i32(a.0),
        fits_i32(b.0),
        qoffset_tile(offset, a) == qoffset_tile(offset, b),
    ensures
        a == b,
{
    lemma_signed_round_trip(a.0);
    lemma_signed_round_trip(b.0);
    lemma_signed_round_trip(qoffset_of(offset, a).1);
    lemma_signed_round_trip(qoffset_of(offset, b).1);
}

} // verus!

verus! {

/// The flat-topped layout shoves odd columns by half a hex: in an even
/// column the row is `r + q/2`; in an odd column it is `r + (q+1)/2` under
/// `EVEN` and `r + (q-1)/2` under `ODD`.
pub proof fn lemma_qoffset_shift(h: (int, int))
    ensures
        h.0 % 2 == 0 ==> 2 * qoffset_of(EVEN as int, h).1 == 2 * h.1 + h.0 && 2 * qoffset_of(
            ODD as int,
            h,
        ).1 == 2 * h.1 + h.0,
        h.0 % 2 == 1 ==> 2 * qoffset_of(EVEN as int, h).1 == 2 * h.1 + h.0 + 1 && 2
            * qoffset_of(ODD as int, h).1 == 2 * h.1 + h.0 - 1,
        qoffset_of(EVEN as int, h).0 == h.0 && qoffset_of(ODD as int, h).0 == h.0,
{
}

/// The row-shoved layout shoves odd rows by half a hex: in an even row the
/// column is `q + r/2`; in an odd row it is `q + (r+1)/2` under `EVEN` and
/// `q + (r-1)/2` under `ODD`. It is the flat-topped layout with the two axes
/// exchanged.
pub proof fn lemma_roffset_shift(h: (int, int))
    ensures
        h.1 % 2 == 0 ==> 2 * roffset_of(EVEN as int, h).0 == 2 * h.0 + h.1 && 2 * roffset_of(
            ODD as int,
            h,
        ).0 == 2 * h.0 + h.1,
        h.1 % 2 == 1 ==> 2 * roffset_of(EVEN as int, h).0 == 2 * h.0 + h.1 + 1 && 2
            * roffset_of(ODD as int, h).0 == 2 * h.0 + h.1 - 1,
        roffset_of(EVEN as int, h).1 == h.1 && roffset_of(ODD as int, h).1 == h.1,
        roffset_of(EVEN as int, h) == (qoffset_of(EVEN as int, (h.1, h.0)).1, qoffset_of(
            EVEN as int,
            (h.1, h.0),
        ).0),
        roffset_of(ODD as int, h) == (qoffset_of(ODD as int, (h.1, h.0)).1, qoffset_of(
            ODD as int,
            (h.1, h.0),
        ).0),
{
}

/// Undoing the row shove gives back the hex: with `col, row` the row-shoved
/// position of `h` under a valid offset, `(col - (row + offset * (row & 1)) / 2, row) == h`.
pub proof fn lemma_roffset_round_trip(offset: int, h: (int, int))
    requires
        valid_offset(offset),
    ensures
        ({
            let (col, row) = roffset_of(offset, h);
            (col - (row + offset * (row % 2)) / 2, row) == h
        }),
{
}

} // verus!
