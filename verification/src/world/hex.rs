use vstd::prelude::*;

use crate::{abs_i32, abs_int, fits_i32};
use crate::world::offset_coords::{
    as_signed, qcube_of, qoffset_from_cube, qoffset_from_ok, qoffset_tile, qoffset_to_cube,
    qoffset_to_ok,
};
use crate::world::{OffsetTile, EVEN};
use vstd::std_specs::ops::{AddSpec, SubSpec};

verus! {

/// A hexagon in cube coordinates `(q, r, s)` with `q + r + s == 0`,
/// stored by its axial pair `(q, r)`.
#[derive(Copy, Clone, Debug)]
pub struct Hex {
    q: i32,
    r: i32,
}

/// The third cube coordinate of an axial pair.
pub open spec fn cube_s(h: (int, int)) -> int {
    -h.0 - h.1
}

impl View for Hex {
    type V = (int, int);

    closed spec fn view(&self) -> (int, int) {
        (self.q as int, self.r as int)
    }
}

impl Hex {
    /// All three cube coordinates of a hex are `i32` values.
    pub open spec fn well_formed(self) -> bool {
        &&& fits_i32(self@.0)
        &&& fits_i32(self@.1)
        &&& fits_i32(cube_s(self@))
    }

    #[verifier::type_invariant]
    spec fn coordinates_fit(self) -> bool {
        self.well_formed()
    }

    /// Builds the hex with cube coordinates `(q, r, s)`; they must sum to zero.
    pub fn new(q: i32, r: i32, s: i32) -> (h: Hex)
        requires
            q + r + s == 0,
            fits_i32(q + r),
        ensures
            h@ == (q as int, r as int),
            cube_s(h@) == s,
    {
        Hex { q: q, r: r }
    }

    pub fn get_s(&self) -> (s: i32)
        requires
            self@.0 != i32::MIN,
        ensures
            s == cube_s(self@),
    {
        proof {
            use_type_invariant(self);
        }
        -self.q - self.r
    }

    pub fn get_r(&self) -> (r: i32)
        ensures
            r == self@.1,
    {
        self.r
    }

    pub fn get_q(&self) -> (q: i32)
        ensures
            q == self@.0,
    {
        self.q
    }
}


/// The hex whose axial coordinates are `(q, r)`, for coordinates that fit.
pub closed spec fn hex_at(q: int, r: int) -> Hex {
    Hex { q: q as i32, r: r as i32 }
}

pub broadcast proof fn lemma_hex_at(q: int, r: int)
    requires
        fits_i32(q),
        fits_i32(r),
    ensures
        #[trigger] hex_at(q, r)@ == (q, r),
{
}

/// When `a + b` neither overflows nor trips the cube-constraint check.
pub open spec fn add_ok(a: (int, int), b: (int, int)) -> bool {
    &&& a.0 != i32::MIN
    &&& b.0 != i32::MIN
    &&& fits_i32(a.0 + b.0)
    &&& fits_i32(a.1 + b.1)
    &&& fits_i32(cube_s(a) + cube_s(b))
    &&& fits_i32(a.0 + b.0 + a.1 + b.1)
}

impl vstd::std_specs::ops::AddSpecImpl for Hex {
    open spec fn obeys_add_spec() -> bool {
        true
    }

    open spec fn add_req(self, rhs: Hex) -> bool {
        add_ok(self@, rhs@)
    }

    open spec fn add_spec(self, rhs: Hex) -> Hex {
        hex_at(self@.0 + rhs@.0, self@.1 + rhs@.1)
    }
}

impl std::ops::Add for Hex {
    type Output = Hex;

    fn add(self, other: Hex) -> (h: Hex) {
        let s = self.get_s() + other.get_s();
        Hex::new(self.q + other.q, self.r + other.r, s)
    }
}


/// The unit step of direction `d` (0 to 5), as an axial pair.
pub open spec fn direction_vec(d: int) -> (int, int) {
    if d == 0 {
        (1, 0)
    } else if d == 1 {
        (1, -1)
    } else if d == 2 {
        (0, -1)
    } else if d == 3 {
        (-1, 0)
    } else if d == 4 {
        (-1, 1)
    } else {
        (0, 1)
    }
}

/// The length of a hex vector: half the sum of the absolute values of its
/// three cube coordinates, which is its number of steps from the origin.
pub open spec fn hex_length_of(h: (int, int)) -> int {
    (abs_int(h.0) + abs_int(h.1) + abs_int(cube_s(h))) / 2
}

/// When `hex_length` runs without overflow.
pub open spec fn hex_length_ok(h: (int, int)) -> bool {
    &&& h.0 != i32::MIN
    &&& h.1 != i32::MIN
    &&& cube_s(h) != i32::MIN
    &&& fits_i32(abs_int(h.0) + abs_int(h.1))
    &&& fits_i32(abs_int(h.0) + abs_int(h.1) + abs_int(cube_s(h)))
}

/// The grid distance between two hexes: the largest coordinate difference.
pub open spec fn hex_dist(a: (int, int), b: (int, int)) -> int {
    let dq = abs_int(a.0 - b.0);
    let dr = abs_int(a.1 - b.1);
    let ds = abs_int(cube_s(a) - cube_s(b));
    if dq >= dr && dq >= ds {
        dq
    } else if dr >= ds {
        dr
    } else {
        ds
    }
}

/// The distance as `distance` computes it: half the sum of the absolute
/// coordinate differences.
pub open spec fn half_sum_dist(a: (int, int), b: (int, int)) -> int {
    (abs_int(a.0 - b.0) + abs_int(a.0 - b.0 + a.1 - b.1) + abs_int(a.1 - b.1)) / 2
}

/// When `axial_subtract(a, b)` runs without overflow.
pub open spec fn axial_subtract_ok(a: (int, int), b: (int, int)) -> bool {
    &&& fits_i32(a.0 - b.0)
    &&& fits_i32(a.1 - b.1)
    &&& a.0 - b.0 != i32::MIN
    &&& fits_i32(-(a.0 - b.0) - (a.1 - b.1))
    &&& fits_i32(a.0 - b.0 + a.1 - b.1)
}

/// When `distance_slow(a, b)` runs without overflow.
pub open spec fn distance_slow_ok(a: (int, int), b: (int, int)) -> bool {
    &&& a.0 != i32::MIN
    &&& b.0 != i32::MIN
    &&& fits_i32(a.0 - b.0) && a.0 - b.0 != i32::MIN
    &&& fits_i32(a.1 - b.1) && a.1 - b.1 != i32::MIN
    &&& fits_i32(cube_s(a) - cube_s(b)) && cube_s(a) - cube_s(b) != i32::MIN
}

/// When `distance(a, b)` runs without overflow.
pub open spec fn distance_ok(a: (int, int), b: (int, int)) -> bool {
    let dq = a.0 - b.0;
    let dr = a.1 - b.1;
    &&& axial_subtract_ok(a, b)
    &&& dr != i32::MIN
    &&& dq + dr != i32::MIN
    &&& fits_i32(abs_int(dq) + abs_int(dq + dr))
    &&& fits_i32(abs_int(dq) + abs_int(dq + dr) + abs_int(dr))
}

impl Hex {
    /// The number of steps from the origin to this hex:
    /// `(|q| + |r| + |s|) / 2`.
    pub fn hex_length(&self) -> (len: u32)
        requires
            hex_length_ok(self@),
        ensures
            len == hex_length_of(self@),
    {
        let s = self.get_s();
        let sum = abs_i32(self.q) + abs_i32(self.r) + abs_i32(s);
        (sum / 2) as u32
    }

    /// The number of steps between two hexes: the length of `a - b`.
    pub fn hex_distance(a: &Hex, b: &Hex) -> (d: u32)
        requires
            sub_ok(a@, b@),
            hex_length_ok((a@.0 - b@.0, a@.1 - b@.1)),
        ensures
            d == hex_length_of((a@.0 - b@.0, a@.1 - b@.1)),
    {
        let diff = a - b;
        proof {
            broadcast use lemma_hex_at;
        }
        diff.hex_length()
    }

    /// The unit hex in direction `direction` (0 to 5).
    pub fn hex_direction(direction: usize) -> (h: Hex)
        requires
            direction < 6,
        ensures
            h@ == direction_vec(direction as int),
    {
        if direction == 0 {
            Hex { q: 1, r: 0 }
        } else if direction == 1 {
            Hex { q: 1, r: -1 }
        } else if direction == 2 {
            Hex { q: 0, r: -1 }
        } else if direction == 3 {
            Hex { q: -1, r: 0 }
        } else if direction == 4 {
            Hex { q: -1, r: 1 }
        } else {
            Hex { q: 0, r: 1 }
        }
    }

    /// The hex next to `self` in direction `direction`.
    pub fn hex_neighbor(&self, direction: usize) -> (h: Hex)
        requires
            direction < 6,
            add_ok(self@, direction_vec(direction as int)),
        ensures
            h@ == (self@.0 + direction_vec(direction as int).0, self@.1 + direction_vec(
                direction as int,
            ).1),
    {
        let step = Hex::hex_direction(direction);
        proof {
            broadcast use lemma_hex_at;
        }
        self + &step
    }

    /// `a - b`, built through `Hex::new`.
    pub fn axial_subtract(a: &Hex, b: &Hex) -> (h: Hex)
        requires
            axial_subtract_ok(a@, b@),
        ensures
            h@ == (a@.0 - b@.0, a@.1 - b@.1),
    {
        let q = a.q - b.q;
        let r = a.r - b.r;
        Hex::new(q, r, -q - r)
    }

    /// The largest of the three coordinate differences.
    pub fn distance_slow(&self, b: Hex) -> (d: i32)
        requires
            distance_slow_ok(self@, b@),
        ensures
            d == hex_dist(self@, b@),
    {
        let dq = abs_i32(self.get_q() - b.get_q());
        let dr = abs_i32(self.get_r() - b.get_r());
        let ds = abs_i32(self.get_s() - b.get_s());
        let inner = if dr >= ds {
            dr
        } else {
            ds
        };
        if dq >= inner {
            dq
        } else {
            inner
        }
    }

    /// Half the sum of `|dq|`, `|dq + dr|` and `|dr|`, cast to `u16`.
    pub fn distance(&self, b: Hex) -> (d: u16)
        requires
            distance_ok(self@, b@),
        ensures
            d == half_sum_dist(self@, b@) as u16,
    {
        let sub_hex = Hex::axial_subtract(self, &b);
        let total = abs_i32(sub_hex.q) + abs_i32(sub_hex.q + sub_hex.r) + abs_i32(sub_hex.r);
        (total / 2) as u16
    }
}

/// The lowest `r` offset in column `q` of a range of radius `n`:
/// `max(-n, -q - n)`.
pub open spec fn row_lo(n: int, q: int) -> int {
    if -n >= -q - n {
        -n
    } else {
        -q - n
    }
}

/// The highest `r` offset in column `q` of a range of radius `n`:
/// `min(n, -q + n)`.
pub open spec fn row_hi(n: int, q: int) -> int {
    if n <= -q + n {
        n
    } else {
        -q + n
    }
}

/// Column `q` of the range of radius `n` around `c`, by increasing `r`.
pub open spec fn range_column(c: (int, int), n: int, q: int) -> Seq<(int, int)> {
    Seq::new(
        (row_hi(n, q) - row_lo(n, q) + 1) as nat,
        |i: int| (c.0 + q, c.1 + row_lo(n, q) + i),
    )
}

/// The columns `-n` up to `q_end - 1` of the range of radius `n` around `c`.
pub open spec fn range_columns(c: (int, int), n: int, q_end: int) -> Seq<(int, int)>
    decreases q_end + n,
{
    if q_end <= -n {
        seq![]
    } else {
        range_columns(c, n, q_end - 1) + range_column(c, n, q_end - 1)
    }
}

/// The hexes within `n` steps of `c`, in the order that `neighbors_in_range`
/// lists them: by column `q` from `-n` to `n`, each column by increasing `r`.
pub open spec fn hex_range(c: (int, int), n: int) -> Seq<(int, int)> {
    range_columns(c, n, n + 1)
}

/// When every hex of the range of radius `n` around `c` can be built by
/// `c + offset` without overflow.
pub open spec fn range_fits(c: (int, int), n: int) -> bool {
    &&& c.0 != i32::MIN
    &&& fits_i32(c.0 - n) && fits_i32(c.0 + n)
    &&& fits_i32(c.1 - n) && fits_i32(c.1 + n)
    &&& i32::MIN < cube_s(c) - n && cube_s(c) + n <= i32::MAX
}

/// The axial views of a list of hexes.
pub open spec fn hex_views(v: Seq<Hex>) -> Seq<(int, int)> {
    v.map_values(|h: Hex| h@)
}

impl Hex {
    /// All hexes within `n` steps of `center`, listed as `hex_range` orders them.
    pub fn neighbors_in_range(center: Hex, n: u16) -> (results: Vec<Hex>)
        requires
            range_fits(center@, n as int),
        ensures
            hex_views(results@) == hex_range(center@, n as int),
    {
        let range: i32 = n as i32;
        let mut results: Vec<Hex> = Vec::new();
        let mut q: i32 = -range;
        while q <= range
            invariant
                range == n as int,
                -range <= q <= range + 1,
                range_fits(center@, n as int),
                hex_views(results@) == range_columns(center@, n as int, q as int),
            decreases range + 1 - q,
        {
            let lo: i32 = if -range >= -q - range {
                -range
            } else {
                -q - range
            };
            let hi: i32 = if range <= -q + range {
                range
            } else {
                -q + range
            };
            let ghost before = hex_views(results@);
            let mut r: i32 = lo;
            while r <= hi
                invariant
                    range == n as int,
                    -range <= q <= range,
                    lo == row_lo(n as int, q as int),
                    hi == row_hi(n as int, q as int),
                    lo <= r <= hi + 1,
                    range_fits(center@, n as int),
                    before == range_columns(center@, n as int, q as int),
                    hex_views(results@) == before + range_column(center@, n as int, q as int).take(
                        r - lo,
                    ),
                decreases hi + 1 - r,
            {
                let s = -q - r;
                let offset = Hex::new(q, r, s);
                proof {
                    broadcast use lemma_hex_at;
                }
                let h = center + offset;
                let ghost col = range_column(center@, n as int, q as int);
                let ghost prev = results@;
                results.push(h);
                proof {
                    assert(col.take(r - lo + 1) =~= col.take(r - lo).push(col[r - lo]));
                    assert(hex_views(results@) =~= hex_views(prev).push(h@));
                }
                r = r + 1;
            }
            proof {
                let col = range_column(center@, n as int, q as int);
                assert(col.take(hi - lo + 1) =~= col);
            }
            q = q + 1;
        }
        results
    }
}

/// The first columns of a range are a prefix of any longer run of its columns.
pub proof fn lemma_columns_prefix(c: (int, int), n: int, k: int, m: int)
    requires
        0 <= n,
        -n <= k <= m,
    ensures
        range_columns(c, n, k).len() <= range_columns(c, n, m).len(),
        forall|i: int|
            0 <= i < range_columns(c, n, k).len() ==> range_columns(c, n, m)[i] == range_columns(
                c,
                n,
                k,
            )[i],
    decreases m - k,
{
    if k < m {
        lemma_columns_prefix(c, n, k, m - 1);
        assert(range_columns(c, n, m) == range_columns(c, n, m - 1) + range_column(c, n, m - 1));
    }
}

/// The offset tiles of a list of hexes in the `offset` layout.
pub open spec fn tile_views(v: Seq<OffsetTile>) -> Seq<(u32, u32)> {
    v.map_values(|t: OffsetTile| t@)
}

/// The hex at the centre of an offset tile, in the even-q layout.
pub open spec fn even_q_hex(t: (u32, u32)) -> (int, int) {
    qcube_of(EVEN as int, as_signed(t.0), as_signed(t.1))
}

/// When `neighbors_in_range_offset(center, n)` runs without a panic.
pub open spec fn range_offset_ok(center: (u32, u32), n: int) -> bool {
    let ch = even_q_hex(center);
    &&& qoffset_to_ok(EVEN as int, as_signed(center.0), as_signed(center.1))
    &&& range_fits(ch, n)
    &&& forall|i: int|
        0 <= i < hex_range(ch, n).len() ==> qoffset_from_ok(EVEN as int, #[trigger] hex_range(ch, n)[i])
}

impl Hex {
    /// The offset tiles (even-q layout) of all hexes within `n` steps of the
    /// hex under `center`, in the order of `hex_range`.
    pub fn neighbors_in_range_offset(center: OffsetTile, n: u16) -> (results: Vec<OffsetTile>)
        requires
            range_offset_ok(center@, n as int),
        ensures
            tile_views(results@) == hex_range(even_q_hex(center@), n as int).map_values(
                |h: (int, int)| qoffset_tile(EVEN as int, h),
            ),
    {
        let center_hex = qoffset_to_cube(EVEN, center);
        let ghost ch = center_hex@;
        let ghost full = hex_range(ch, n as int);
        let ghost want = full.map_values(|h: (int, int)| qoffset_tile(EVEN as int, h));
        let range: i32 = n as i32;
        let mut results: Vec<OffsetTile> = Vec::new();
        let mut q: i32 = -range;
        while q < range + 1
            invariant
                range == n as int,
                -range <= q <= range + 1,
                ch == center_hex@,
                range_offset_ok(center@, n as int),
                ch == even_q_hex(center@),
                full == hex_range(ch, n as int),
                want == full.map_values(|h: (int, int)| qoffset_tile(EVEN as int, h)),
                tile_views(results@) == range_columns(ch, n as int, q as int).map_values(
                    |h: (int, int)| qoffset_tile(EVEN as int, h),
                ),
            decreases range + 1 - q,
        {
            let r1: i32 = if -range >= -q - range {
                -range
            } else {
                -q - range
            };
            let r2: i32 = if range <= -q + range {
                range
            } else {
                -q + range
            };
            let ghost before = range_columns(ch, n as int, q as int);
            let ghost col = range_column(ch, n as int, q as int);
            proof {
                lemma_columns_prefix(ch, n as int, q as int + 1, n as int + 1);
                assert(range_columns(ch, n as int, q as int + 1) == before + col);
            }
            let mut r: i32 = r1;
            while r < r2 + 1
                invariant
                    range == n as int,
                    -range <= q <= range,
                    r1 == row_lo(n as int, q as int),
                    r2 == row_hi(n as int, q as int),
                    r1 <= r <= r2 + 1,
                    ch == center_hex@,
                    range_offset_ok(center@, n as int),
                    ch == even_q_hex(center@),
                    full == hex_range(ch, n as int),
                    before == range_columns(ch, n as int, q as int),
                    col == range_column(ch, n as int, q as int),
                    range_columns(ch, n as int, q as int + 1) == before + col,
                    range_columns(ch, n as int, q as int + 1).len() <= full.len(),
                    forall|i: int|
                        0 <= i < range_columns(ch, n as int, q as int + 1).len() ==> full[i]
                            == range_columns(ch, n as int, q as int + 1)[i],
                    tile_views(results@) == (before + col.take(r - r1)).map_values(
                        |h: (int, int)| qoffset_tile(EVEN as int, h),
                    ),
                decreases r2 + 1 - r,
            {
                let s = -q - r;
                let to_push = center_hex + Hex::new(q, r, s);
                proof {
                    broadcast use lemma_hex_at;

                    let idx = before.len() + (r - r1);
                    assert((before + col)[idx] == col[r - r1]);
                    assert(full[idx] == to_push@);
                    assert(qoffset_from_ok(EVEN as int, full[idx]));
                }
                let tile = qoffset_from_cube(EVEN, &to_push);
                let ghost prev = results@;
                results.push(tile);
                proof {
                    assert(col.take(r - r1 + 1) =~= col.take(r - r1).push(col[r - r1]));
                    assert(before + col.take(r - r1 + 1) =~= (before + col.take(r - r1)).push(
                        col[r - r1],
                    ));
                    assert(tile_views(results@) =~= tile_views(prev).push(tile@));
                }
                r = r + 1;
            }
            proof {
                assert(col.take(r2 - r1 + 1) =~= col);
            }
            q = q + 1;
        }
        results
    }
}

impl std::ops::Add<&Hex> for &Hex {
    type Output = Hex;

    fn add(self, other: &Hex) -> (h: Hex) {
        let s = self.get_s() + other.get_s();
        Hex::new(self.q + other.q, self.r + other.r, s)
    }
}

impl vstd::std_specs::ops::AddSpecImpl<&Hex> for &Hex {
    open spec fn obeys_add_spec() -> bool {
        true
    }

    open spec fn add_req(self, rhs: &Hex) -> bool {
        add_ok(self@, rhs@)
    }

    open spec fn add_spec(self, rhs: &Hex) -> Hex {
        hex_at(self@.0 + rhs@.0, self@.1 + rhs@.1)
    }
}

/// When `a - b` neither overflows nor trips the cube-constraint check.
pub open spec fn sub_ok(a: (int, int), b: (int, int)) -> bool {
    &&& a.0 != i32::MIN
    &&& b.0 != i32::MIN
    &&& fits_i32(a.0 - b.0)
    &&& fits_i32(a.1 - b.1)
    &&& fits_i32(cube_s(a) - cube_s(b))
    &&& fits_i32(a.0 - b.0 + a.1 - b.1)
}

impl std::ops::Sub for Hex {
    type Output = Hex;

    fn sub(self, other: Hex) -> (h: Hex) {
        let s = self.get_s() - other.get_s();
        Hex::new(self.q - other.q, self.r - other.r, s)
    }
}

impl vstd::std_specs::ops::SubSpecImpl for Hex {
    open spec fn obeys_sub_spec() -> bool {
        true
    }

    open spec fn sub_req(self, rhs: Hex) -> bool {
        sub_ok(self@, rhs@)
    }

    open spec fn sub_spec(self, rhs: Hex) -> Hex {
        hex_at(self@.0 - rhs@.0, self@.1 - rhs@.1)
    }
}

impl std::ops::Sub<&Hex> for &Hex {
    type Output = Hex;

    fn sub(self, other: &Hex) -> (h: Hex) {
        let s = self.get_s() - other.get_s();
        Hex::new(self.q - other.q, self.r - other.r, s)
    }
}

impl vstd::std_specs::ops::SubSpecImpl<&Hex> for &Hex {
    open spec fn obeys_sub_spec() -> bool {
        true
    }

    open spec fn sub_req(self, rhs: &Hex) -> bool {
        sub_ok(self@, rhs@)
    }

    open spec fn sub_spec(self, rhs: &Hex) -> Hex {
        hex_at(self@.0 - rhs@.0, self@.1 - rhs@.1)
    }
}

/// When the coordinate-wise product of `a` and `b` neither overflows nor
/// breaks the cube constraint (the products must again sum to zero).
pub open spec fn mul_ok(a: (int, int), b: (int, int)) -> bool {
    &&& a.0 != i32::MIN
    &&& b.0 != i32::MIN
    &&& fits_i32(a.0 * b.0)
    &&& fits_i32(a.1 * b.1)
    &&& fits_i32(cube_s(a) * cube_s(b))
    &&& fits_i32(a.0 * b.0 + a.1 * b.1)
    &&& a.0 * b.0 + a.1 * b.1 + cube_s(a) * cube_s(b) == 0
}

impl std::ops::Mul for Hex {
    type Output = Hex;

    fn mul(self, other: Hex) -> (h: Hex) {
        let s = self.get_s() * other.get_s();
        Hex::new(self.q * other.q, self.r * other.r, s)
    }
}

impl vstd::std_specs::ops::MulSpecImpl for Hex {
    open spec fn obeys_mul_spec() -> bool {
        true
    }

    open spec fn mul_req(self, rhs: Hex) -> bool {
        mul_ok(self@, rhs@)
    }

    open spec fn mul_spec(self, rhs: Hex) -> Hex {
        hex_at(self@.0 * rhs@.0, self@.1 * rhs@.1)
    }
}

impl std::ops::Mul<&Hex> for &Hex {
    type Output = Hex;

    fn mul(self, other: &Hex) -> (h: Hex) {
        let s = self.get_s() * other.get_s();
        Hex::new(self.q * other.q, self.r * other.r, s)
    }
}

impl vstd::std_specs::ops::MulSpecImpl<&Hex> for &Hex {
    open spec fn obeys_mul_spec() -> bool {
        true
    }

    open spec fn mul_req(self, rhs: &Hex) -> bool {
        mul_ok(self@, rhs@)
    }

    open spec fn mul_spec(self, rhs: &Hex) -> Hex {
        hex_at(self@.0 * rhs@.0, self@.1 * rhs@.1)
    }
}

impl PartialEq for Hex {
    fn eq(&self, other: &Hex) -> (b: bool) {
        self.q == other.q && self.r == other.r
    }
}

impl vstd::std_specs::cmp::PartialEqSpecImpl for Hex {
    open spec fn obeys_eq_spec() -> bool {
        true
    }

    open spec fn eq_spec(&self, other: &Hex) -> bool {
        self@ == other@
    }
}

} // verus!

verus! {

/// `distance` and `distance_slow` measure the same thing: half the sum of
/// the absolute coordinate differences equals the largest of them.
pub proof fn lemma_distance_agrees(a: (int, int), b: (int, int))
    ensures
        half_sum_dist(a, b) == hex_dist(a, b),
{
}

/// The grid distance is zero exactly between equal hexes, and symmetric.
pub proof fn lemma_hex_dist_metric(a: (int, int), b: (int, int))
    ensures
        hex_dist(a, b) >= 0,
        hex_dist(a, b) == hex_dist(b, a),
        hex_dist(a, b) == 0 <==> a == b,
{
}

/// The grid distance obeys the triangle inequality.
pub proof fn lemma_hex_dist_triangle(a: (int, int), b: (int, int), c: (int, int))
    ensures
        hex_dist(a, c) <= hex_dist(a, b) + hex_dist(b, c),
{
}

/// The six directions are unit steps: each neighbour lies at distance one,
/// and opposite directions cancel.
pub proof fn lemma_directions(d: int)
    requires
        0 <= d < 6,
    ensures
        forall|h: (int, int)|
            #![trigger hex_dist(h, (h.0 + direction_vec(d).0, h.1 + direction_vec(d).1))]
            hex_dist(h, (h.0 + direction_vec(d).0, h.1 + direction_vec(d).1)) == 1,
        direction_vec(d).0 + direction_vec((d + 3) % 6).0 == 0,
        direction_vec(d).1 + direction_vec((d + 3) % 6).1 == 0,
{
}

/// Every hex at distance one from `h` is the neighbour of `h` in one of the
/// six directions.
pub proof fn lemma_neighbors_complete(h: (int, int), x: (int, int))
    requires
        hex_dist(h, x) == 1,
    ensures
        exists|d: int|
            0 <= d < 6 && x == (h.0 + #[trigger] direction_vec(d).0, h.1 + direction_vec(d).1),
{
    let dq = x.0 - h.0;
    let dr = x.1 - h.1;
    let d = if dq == 1 && dr == 0 {
        0int
    } else if dq == 1 && dr == -1 {
        1
    } else if dq == 0 && dr == -1 {
        2
    } else if dq == -1 && dr == 0 {
        3
    } else if dq == -1 && dr == 1 {
        4
    } else {
        5
    };
    assert(x == (h.0 + direction_vec(d).0, h.1 + direction_vec(d).1));
}

/// Adding hexes commutes, and subtracting the hex just added gives back
/// the hex started from.
pub proof fn lemma_add_sub(a: Hex, b: Hex)
    requires
        add_ok(a@, b@),
    ensures
        add_ok(b@, a@),
        a.add_spec(b)@ == b.add_spec(a)@,
        a.add_spec(b)@ == (a@.0 + b@.0, a@.1 + b@.1),
        a.add_spec(b).sub_spec(b)@ == a@,
{
    broadcast use lemma_hex_at;

}

/// The length of a hex vector is its grid distance from the origin, so
/// `hex_distance` measures the same distance as `distance` and
/// `distance_slow`.
pub proof fn lemma_hex_length_is_distance(a: (int, int), b: (int, int))
    ensures
        hex_length_of((a.0 - b.0, a.1 - b.1)) == hex_dist(a, b),
        hex_length_of((a.0 - b.0, a.1 - b.1)) == half_sum_dist(a, b),
{
}

} // verus!

verus! {

/// Column `q` of a range holds exactly the hexes of that column within the
/// radius.
proof fn lemma_column_contains(c: (int, int), n: int, q: int, x: (int, int))
    requires
        0 <= n,
        -n <= q <= n,
    ensures
        range_column(c, n, q).contains(x) <==> (x.0 - c.0 == q && hex_dist(x, c) <= n),
{
    let col = range_column(c, n, q);
    let lo = row_lo(n, q);
    if col.contains(x) {
        let i = choose|i: int| 0 <= i < col.len() && col[i] == x;
        assert(col[i] == (c.0 + q, c.1 + lo + i));
    }
    if x.0 - c.0 == q && hex_dist(x, c) <= n {
        let i = x.1 - c.1 - lo;
        assert(0 <= i < col.len());
        assert(col[i] == x);
    }
}

/// The first columns of a range hold exactly the hexes of those columns
/// within the radius.
proof fn lemma_columns_contains(c: (int, int), n: int, k: int, x: (int, int))
    requires
        0 <= n,
        -n <= k <= n + 1,
    ensures
        range_columns(c, n, k).contains(x) <==> (-n <= x.0 - c.0 < k && hex_dist(x, c) <= n),
    decreases k + n,
{
    if k > -n {
        lemma_columns_contains(c, n, k - 1, x);
        lemma_column_contains(c, n, k - 1, x);
        let a = range_columns(c, n, k - 1);
        let col = range_column(c, n, k - 1);
        let s = range_columns(c, n, k);
        assert(s == a + col);
        if s.contains(x) {
            let i = choose|i: int| 0 <= i < s.len() && s[i] == x;
            if i < a.len() {
                assert(a[i] == x);
            } else {
                assert(col[i - a.len()] == x);
            }
        }
        if a.contains(x) {
            let i = choose|i: int| 0 <= i < a.len() && a[i] == x;
            assert(s[i] == x);
        }
        if col.contains(x) {
            let i = choose|i: int| 0 <= i < col.len() && col[i] == x;
            assert(s[a.len() + i] == x);
        }
    }
}

/// No hex occurs twice among the first columns of a range.
proof fn lemma_columns_distinct(c: (int, int), n: int, k: int)
    requires
        0 <= n,
        -n <= k <= n + 1,
    ensures
        range_columns(c, n, k).no_duplicates(),
    decreases k + n,
{
    if k > -n {
        lemma_columns_distinct(c, n, k - 1);
        let a = range_columns(c, n, k - 1);
        let col = range_column(c, n, k - 1);
        let s = range_columns(c, n, k);
        assert(s == a + col);
        assert forall|i: int, j: int| 0 <= i < s.len() && 0 <= j < s.len() && i != j implies s[i]
            != s[j] by {
            if i >= a.len() && j < a.len() {
                assert(a.contains(s[j]));
                lemma_columns_contains(c, n, k - 1, s[j]);
            } else if i < a.len() && j >= a.len() {
                assert(a.contains(s[i]));
                lemma_columns_contains(c, n, k - 1, s[i]);
            }
        }
    }
}

/// Twice the number of hexes in the first columns (`-n` up to `k - 1`) of a
/// range of radius `n`.
spec fn twice_columns_len(n: int, k: int) -> int {
    if k <= 1 {
        let m = k + n;
        2 * m * (n + 1) + m * (m - 1)
    } else {
        let j = k - 1;
        2 * (n + 1) * (n + 1) + n * (n + 1) + 2 * j * (2 * n + 1) - j * (j + 1)
    }
}

proof fn lemma_columns_len(c: (int, int), n: int, k: int)
    requires
        0 <= n,
        -n <= k <= n + 1,
    ensures
        2 * range_columns(c, n, k).len() == twice_columns_len(n, k),
    decreases k + n,
{
    if k > -n {
        lemma_columns_len(c, n, k - 1);
        let prev = twice_columns_len(n, k - 1);
        let col_len = range_column(c, n, k - 1).len() as int;
        assert(range_columns(c, n, k).len() == range_columns(c, n, k - 1).len() + col_len);
        if k <= 1 {
            assert(col_len == 2 * n + k);
            assert(prev + 2 * col_len == twice_columns_len(n, k)) by (nonlinear_arith)
                requires
                    k <= 1,
                    prev == (if k - 1 <= 1 {
                        2 * (k - 1 + n) * (n + 1) + (k - 1 + n) * (k - 1 + n - 1)
                    } else {
                        0
                    }),
                    col_len == 2 * n + k,
                    twice_columns_len(n, k) == 2 * (k + n) * (n + 1) + (k + n) * (k + n - 1),
            ;
        } else {
            assert(col_len == 2 * n + 2 - k);
            assert(prev + 2 * col_len == twice_columns_len(n, k)) by (nonlinear_arith)
                requires
                    k >= 2,
                    prev == (if k - 1 <= 1 {
                        2 * (k - 1 + n) * (n + 1) + (k - 1 + n) * (k - 1 + n - 1)
                    } else {
                        2 * (n + 1) * (n + 1) + n * (n + 1) + 2 * (k - 2) * (2 * n + 1) - (k - 2)
                            * (k - 1)
                    }),
                    col_len == 2 * n + 2 - k,
                    twice_columns_len(n, k) == 2 * (n + 1) * (n + 1) + n * (n + 1) + 2 * (k - 1)
                        * (2 * n + 1) - (k - 1) * k,
            ;
        }
    } else {
        assert(twice_columns_len(n, k) == 0) by (nonlinear_arith)
            requires
                k == -n,
                twice_columns_len(n, k) == 2 * (k + n) * (n + 1) + (k + n) * (k + n - 1),
        ;
    }
}

/// The range of radius `n` around `c` lists every hex within `n` steps of
/// `c`, and no other, each exactly once: `3n(n + 1) + 1` hexes in all.
pub proof fn lemma_hex_range(c: (int, int), n: int)
    requires
        0 <= n,
    ensures
        forall|x: (int, int)| #[trigger] hex_range(c, n).contains(x) <==> hex_dist(x, c) <= n,
        hex_range(c, n).no_duplicates(),
        hex_range(c, n).len() == 3 * n * (n + 1) + 1,
{
    assert forall|x: (int, int)| #[trigger] hex_range(c, n).contains(x) <==> hex_dist(x, c) <= n by {
        lemma_columns_contains(c, n, n + 1, x);
    }
    lemma_columns_distinct(c, n, n + 1);
    lemma_columns_len(c, n, n + 1);
    assert(twice_columns_len(n, n + 1) == 2 * (3 * n * (n + 1) + 1)) by (nonlinear_arith)
        requires
            n >= 0,
            twice_columns_len(n, n + 1) == (if n + 1 <= 1 {
                2 * (n + 1 + n) * (n + 1) + (n + 1 + n) * (n + 1 + n - 1)
            } else {
                2 * (n + 1) * (n + 1) + n * (n + 1) + 2 * n * (2 * n + 1) - n * (n + 1)
            }),
    ;
}

} // verus!

verus! {

/// The offset tiles that `neighbors_in_range_offset` lists are all
/// different, one for each hex of the range.
pub proof fn lemma_range_offset_distinct(center: (u32, u32), n: int)
    requires
        0 <= n,
        range_offset_ok(center, n),
    ensures
        hex_range(even_q_hex(center), n).map_values(|h: (int, int)| qoffset_tile(EVEN as int, h))
            .no_duplicates(),
{
    let ch = even_q_hex(center);
    let hs = hex_range(ch, n);
    let ts = hs.map_values(|h: (int, int)| qoffset_tile(EVEN as int, h));
    lemma_hex_range(ch, n);
    assert forall|i: int, j: int| 0 <= i < ts.len() && 0 <= j < ts.len() && i != j implies ts[i]
        != ts[j] by {
        assert(hs.contains(hs[i]));
        assert(hs.contains(hs[j]));
        assert(qoffset_from_ok(EVEN as int, hs[i]));
        assert(qoffset_from_ok(EVEN as int, hs[j]));
        if ts[i] == ts[j] {
            crate::world::offset_coords::lemma_qoffset_injective(EVEN as int, hs[i], hs[j]);
        }
    }
}

} // verus!
