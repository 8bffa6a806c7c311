use vstd::prelude::*;

verus! {

/// The 16 control-point indices of patch `(qx, qz)` on a grid `3 * nx + 1`
/// points wide, row by row, each cast to `u16`.
pub open spec fn patch_indices(nx: int, qx: int, qz: int) -> Seq<u16> {
    Seq::new(
        16,
        |w: int| #[verifier::truncate] (((3 * qz + w / 4) * (3 * nx + 1) + 3 * qx + w % 4) as u16),
    )
}

/// The indices of patches `0 .. qx_end` of patch row `qz`.
pub open spec fn patch_row_indices(nx: int, qz: int, qx_end: int) -> Seq<u16>
    decreases qx_end,
{
    if qx_end <= 0 {
        seq![]
    } else {
        patch_row_indices(nx, qz, qx_end - 1) + patch_indices(nx, qx_end - 1, qz)
    }
}

/// The index buffer of the first `qz_end` patch rows of a surface `nx`
/// patches wide.
pub open spec fn surface_index_seq(nx: int, qz_end: int) -> Seq<u16>
    decreases qz_end,
{
    if qz_end <= 0 {
        seq![]
    } else {
        surface_index_seq(nx, qz_end - 1) + patch_row_indices(nx, qz_end - 1, nx)
    }
}

/// The grid index of control point `w` (0 to 15, row by row) of patch
/// `(qx, qz)` on a grid `3 * nx + 1` points wide.
pub open spec fn control_point_index(nx: int, qx: int, qz: int, w: int) -> int {
    (3 * qz + w / 4) * (3 * nx + 1) + 3 * qx + w % 4
}

/// When computing the grid index of control point `w` does not overflow.
pub open spec fn control_point_step_ok(nx: int, qx: int, qz: int, w: int) -> bool {
    &&& 3 * qx + w % 4 <= usize::MAX
    &&& 3 * qz + w / 4 <= usize::MAX
    &&& control_point_index(nx, qx, qz, w) <= usize::MAX
}

/// When locating the control points of patch `(qx, qz)` runs without an
/// arithmetic overflow: every index that is computed, that is every one up
/// to the first that lies beyond the `num_points` points, fits.
pub open spec fn control_points_ok(nx: int, qx: int, qz: int, num_points: int) -> bool {
    &&& 3 * nx + 1 <= usize::MAX
    &&& forall|w: int|
        0 <= w < 16 && (forall|v: int|
            0 <= v < w ==> #[trigger] control_point_index(nx, qx, qz, v) < num_points)
            ==> #[trigger] control_point_step_ok(nx, qx, qz, w)
}

/// When building the index buffer of an `nx` by `nz` surface runs without
/// an arithmetic overflow or a capacity overflow.
pub open spec fn surface_indices_ok(nx: int, nz: int) -> bool {
    &&& 3 * nx + 1 <= usize::MAX
    &&& nx * nz * 16 <= usize::MAX
    &&& 2 * (nx * nz * 16) <= isize::MAX
    &&& 3 * nz * (3 * nx + 1) + 3 * nx <= usize::MAX
}

/// The grid indices of the 16 control points of patch `(quad_x, quad_z)`,
/// row by row, or `None` when one of them lies beyond the `num_points`
/// points of the grid.
pub fn quad_point_indices(num_quads_x: usize, quad_x: usize, quad_z: usize, num_points: usize) -> (res:
    Option<Vec<usize>>)
    requires
        control_points_ok(num_quads_x as int, quad_x as int, quad_z as int, num_points as int),
    ensures
        res is Some <==> forall|w: int|
            0 <= w < 16 ==> #[trigger] control_point_index(
                num_quads_x as int,
                quad_x as int,
                quad_z as int,
                w,
            ) < num_points,
        res matches Some(v) ==> v@ == Seq::new(
            16,
            |w: int| control_point_index(num_quads_x as int, quad_x as int, quad_z as int, w) as usize,
        ),
        res matches Some(v) ==> v@.len() == 16 && forall|a: int, b: int|
            0 <= a < 4 && 0 <= b < 4 ==> #[trigger] v@[4 * a + b] == (3 * quad_z + a) * (3
                * num_quads_x + 1) + 3 * quad_x + b,
{
    let ghost nx = num_quads_x as int;
    let ghost qx = quad_x as int;
    let ghost qz = quad_z as int;
    let ghost want = Seq::new(16, |w: int| control_point_index(nx, qx, qz, w) as usize);
    let total_vertices_x = num_quads_x * 3 + 1;
    let mut control_points: Vec<usize> = Vec::with_capacity(16);
    let mut v_idx: usize = 0;
    while v_idx < 4
        invariant
            nx == num_quads_x,
            qx == quad_x,
            qz == quad_z,
            control_points_ok(nx, qx, qz, num_points as int),
            total_vertices_x == 3 * nx + 1,
            v_idx <= 4,
            want == Seq::new(16, |w: int| control_point_index(nx, qx, qz, w) as usize),
            control_points@ == want.take(4 * v_idx),
            forall|w: int| 0 <= w < 4 * v_idx ==> #[trigger] control_point_index(nx, qx, qz, w) < num_points,
        decreases 4 - v_idx,
    {
        let mut u_idx: usize = 0;
        while u_idx < 4
            invariant
                nx == num_quads_x,
                qx == quad_x,
                qz == quad_z,
                control_points_ok(nx, qx, qz, num_points as int),
                total_vertices_x == 3 * nx + 1,
                v_idx < 4,
                u_idx <= 4,
                want == Seq::new(16, |w: int| control_point_index(nx, qx, qz, w) as usize),
                control_points@ == want.take(4 * v_idx + u_idx),
                forall|w: int|
                    0 <= w < 4 * v_idx + u_idx ==> #[trigger] control_point_index(nx, qx, qz, w)
                        < num_points,
            decreases 4 - u_idx,
        {
            let ghost w = 4 * v_idx + u_idx;
            assert(w / 4 == v_idx && w % 4 == u_idx);
            assert(control_point_step_ok(nx, qx, qz, w));
            proof {
                assert((3 * qz + v_idx) * (3 * nx + 1) <= control_point_index(nx, qx, qz, w))
                    by (nonlinear_arith)
                    requires
                        v_idx < 4,
                        u_idx < 4,
                        0 <= qz,
                        0 <= qx,
                        0 <= nx,
                        w == 4 * v_idx + u_idx,
                        w / 4 == v_idx,
                        w % 4 == u_idx,
                        control_point_index(nx, qx, qz, w) == (3 * qz + w / 4) * (3 * nx + 1) + 3
                            * qx + w % 4,
                ;
            }
            let grid_x = quad_x * 3 + u_idx;
            let grid_z = quad_z * 3 + v_idx;
            let index = grid_z * total_vertices_x + grid_x;
            assert(index == control_point_index(nx, qx, qz, w));
            if index >= num_points {
                return None;
            }
            control_points.push(index);
            proof {
                assert(want.take(w + 1) =~= want.take(w).push(want[w]));
            }
            u_idx = u_idx + 1;
        }
        v_idx = v_idx + 1;
    }
    proof {
        assert(want.take(16) =~= want);
        assert forall|a: int, b: int| 0 <= a < 4 && 0 <= b < 4 implies #[trigger] control_points@[4
            * a + b] == (3 * qz + a) * (3 * nx + 1) + 3 * qx + b by {
            let w = 4 * a + b;
            assert(w / 4 == a && w % 4 == b);
            assert(control_point_index(nx, qx, qz, w) < num_points);
        }
    }
    Some(control_points)
}

/// The index buffer of a surface of `num_quads_x` by `num_quads_z` bicubic
/// patches over a grid of `3 * num_quads_x + 1` by `3 * num_quads_z + 1`
/// control points: patch by patch (rows of patches in `z`, patches in `x`),
/// each patch's 16 points row by row.
pub fn surface_indices(num_quads_x: usize, num_quads_z: usize) -> (indices: Vec<u16>)
    requires
        surface_indices_ok(num_quads_x as int, num_quads_z as int),
    ensures
        indices@ == surface_index_seq(num_quads_x as int, num_quads_z as int),
{
    let total_vertices_x = num_quads_x * 3 + 1;
    let ghost nx = num_quads_x as int;
    let ghost nz = num_quads_z as int;
    let mut indices: Vec<u16> = Vec::with_capacity(num_quads_x * num_quads_z * 16);
    let mut quad_z: usize = 0;
    while quad_z < num_quads_z
        invariant
            surface_indices_ok(nx, nz),
            nx == num_quads_x,
            nz == num_quads_z,
            total_vertices_x == 3 * nx + 1,
            quad_z <= num_quads_z,
            indices@ == surface_index_seq(nx, quad_z as int),
        decreases num_quads_z - quad_z,
    {
        let mut quad_x: usize = 0;
        while quad_x < num_quads_x
            invariant
                surface_indices_ok(nx, nz),
                nx == num_quads_x,
                nz == num_quads_z,
                total_vertices_x == 3 * nx + 1,
                quad_z < num_quads_z,
                quad_x <= num_quads_x,
                indices@ == surface_index_seq(nx, quad_z as int) + patch_row_indices(
                    nx,
                    quad_z as int,
                    quad_x as int,
                ),
            decreases num_quads_x - quad_x,
        {
            proof {
                assert(3 * quad_z + 3 <= 3 * nz * (3 * nx + 1) + 3 * nx) by (nonlinear_arith)
                    requires
                        quad_z < nz,
                        0 <= nx,
                ;
            }
            let start_x = quad_x * 3;
            let start_z = quad_z * 3;
            let ghost before = indices@;
            let ghost patch = patch_indices(nx, quad_x as int, quad_z as int);
            let mut i: usize = 0;
            while i < 4
                invariant
                    surface_indices_ok(nx, nz),
                    nx == num_quads_x,
                    nz == num_quads_z,
                    total_vertices_x == 3 * nx + 1,
                    quad_z < num_quads_z,
                    quad_x < num_quads_x,
                    start_x == 3 * quad_x,
                    start_z == 3 * quad_z,
                    i <= 4,
                    patch == patch_indices(nx, quad_x as int, quad_z as int),
                    indices@ == before + patch.take(4 * i),
                decreases 4 - i,
            {
                let mut j: usize = 0;
                while j < 4
                    invariant
                        surface_indices_ok(nx, nz),
                        nx == num_quads_x,
                        nz == num_quads_z,
                        total_vertices_x == 3 * nx + 1,
                        quad_z < num_quads_z,
                        quad_x < num_quads_x,
                        start_x == 3 * quad_x,
                        start_z == 3 * quad_z,
                        i < 4,
                        j <= 4,
                        patch == patch_indices(nx, quad_x as int, quad_z as int),
                        indices@ == before + patch.take(4 * i + j),
                    decreases 4 - j,
                {
                    proof {
                        assert(start_z + i <= 3 * nz) by (nonlinear_arith)
                            requires
                                start_z == 3 * quad_z,
                                quad_z < nz,
                                i < 4,
                        ;
                        assert(3 * nz <= 3 * nz * (3 * nx + 1)) by (nonlinear_arith)
                            requires
                                0 <= nx,
                                0 <= nz,
                        ;
                    }
                    let x = start_x + j;
                    let z = start_z + i;
                    proof {
                        assert(z * total_vertices_x <= 3 * nz * (3 * nx + 1)) by (nonlinear_arith)
                            requires
                                z <= 3 * nz,
                                total_vertices_x == 3 * nx + 1,
                                0 <= z,
                                0 <= nx,
                        ;
                        assert(x <= 3 * nx) by (nonlinear_arith)
                            requires
                                x == 3 * quad_x + j,
                                quad_x < nx,
                                j < 4,
                        ;
                    }
                    let value = z * total_vertices_x + x;
                    let ghost prev = indices@;
                    indices.push(#[verifier::truncate] (value as u16));
                    proof {
                        let w = 4 * i + j;
                        assert(w / 4 == i && w % 4 == j);
                        assert(patch[w as int] == #[verifier::truncate] (value as u16));
                        assert(patch.take(w + 1) =~= patch.take(w as int).push(patch[w as int]));
                    }
                    j = j + 1;
                }
                i = i + 1;
            }
            proof {
                assert(patch.take(16) =~= patch);
            }
            quad_x = quad_x + 1;
        }
        quad_z = quad_z + 1;
    }
    indices
}

} // verus!

verus! {

/// Each patch row contributes 16 indices per patch.
proof fn lemma_patch_row_len(nx: int, qz: int, qx_end: int)
    requires
        0 <= qx_end,
    ensures
        patch_row_indices(nx, qz, qx_end).len() == 16 * qx_end,
    decreases qx_end,
{
    if qx_end > 0 {
        lemma_patch_row_len(nx, qz, qx_end - 1);
    }
}

/// Every index of patch row `qz` (with `qz < nz`) names a point of the
/// `(3 nx + 1) x (3 nz + 1)` grid, when the grid is small enough for `u16`.
proof fn lemma_patch_row_in_grid(nx: int, nz: int, qz: int, qx_end: int)
    requires
        0 <= qz < nz,
        0 <= qx_end <= nx,
        (3 * nx + 1) * (3 * nz + 1) <= 65536,
    ensures
        forall|k: int|
            0 <= k < patch_row_indices(nx, qz, qx_end).len() ==> (#[trigger] patch_row_indices(
                nx,
                qz,
                qx_end,
            )[k]) < (3 * nx + 1) * (3 * nz + 1),
    decreases qx_end,
{
    if qx_end > 0 {
        lemma_patch_row_in_grid(nx, nz, qz, qx_end - 1);
        let a = patch_row_indices(nx, qz, qx_end - 1);
        let p = patch_indices(nx, qx_end - 1, qz);
        assert forall|w: int| 0 <= w < 16 implies (#[trigger] p[w]) < (3 * nx + 1) * (3 * nz + 1) by {
            let qx = qx_end - 1;
            let v = (3 * qz + w / 4) * (3 * nx + 1) + 3 * qx + w % 4;
            assert(0 <= v < (3 * nx + 1) * (3 * nz + 1)) by (nonlinear_arith)
                requires
                    0 <= qz < nz,
                    0 <= qx < nx,
                    0 <= w < 16,
                    v == (3 * qz + w / 4) * (3 * nx + 1) + 3 * qx + w % 4,
            ;
            assert(p[w] == v);
        }
        assert forall|k: int|
            0 <= k < patch_row_indices(nx, qz, qx_end).len() implies (
            #[trigger] patch_row_indices(nx, qz, qx_end)[k]) < (3 * nx + 1) * (3 * nz + 1) by {
            if k < a.len() {
                assert(patch_row_indices(nx, qz, qx_end)[k] == a[k]);
            } else {
                assert(patch_row_indices(nx, qz, qx_end)[k] == p[k - a.len()]);
            }
        }
    }
}

proof fn lemma_surface_prefix(nx: int, nz: int, qz_end: int)
    requires
        0 <= qz_end <= nz,
        0 <= nx,
        (3 * nx + 1) * (3 * nz + 1) <= 65536,
    ensures
        surface_index_seq(nx, qz_end).len() == 16 * nx * qz_end,
        forall|k: int|
            0 <= k < surface_index_seq(nx, qz_end).len() ==> (#[trigger] surface_index_seq(
                nx,
                qz_end,
            )[k]) < (3 * nx + 1) * (3 * nz + 1),
    decreases qz_end,
{
    if qz_end > 0 {
        lemma_surface_prefix(nx, nz, qz_end - 1);
        lemma_patch_row_len(nx, qz_end - 1, nx);
        lemma_patch_row_in_grid(nx, nz, qz_end - 1, nx);
        let a = surface_index_seq(nx, qz_end - 1);
        let r = patch_row_indices(nx, qz_end - 1, nx);
        assert(16 * nx * (qz_end - 1) + 16 * nx == 16 * nx * qz_end) by (nonlinear_arith);
        assert forall|k: int|
            0 <= k < surface_index_seq(nx, qz_end).len() implies (#[trigger] surface_index_seq(
            nx,
            qz_end,
        )[k]) < (3 * nx + 1) * (3 * nz + 1) by {
            if k < a.len() {
                assert(surface_index_seq(nx, qz_end)[k] == a[k]);
            } else {
                assert(surface_index_seq(nx, qz_end)[k] == r[k - a.len()]);
            }
        }
    }
}

/// The index buffer holds 16 indices per patch, and on a grid of at most
/// 65536 points every index names a point of the grid.
pub proof fn lemma_surface_indices(nx: int, nz: int)
    requires
        0 <= nx,
        0 <= nz,
        (3 * nx + 1) * (3 * nz + 1) <= 65536,
    ensures
        surface_index_seq(nx, nz).len() == 16 * nx * nz,
        forall|k: int|
            0 <= k < surface_index_seq(nx, nz).len() ==> (#[trigger] surface_index_seq(nx, nz)[k])
                < (3 * nx + 1) * (3 * nz + 1),
{
    lemma_surface_prefix(nx, nz, nz);
}

} // verus!

verus! {

proof fn lemma_surface_len(nx: int, m: int)
    requires
        0 <= nx,
        0 <= m,
    ensures
        surface_index_seq(nx, m).len() == 16 * nx * m,
    decreases m,
{
    if m > 0 {
        lemma_surface_len(nx, m - 1);
        lemma_patch_row_len(nx, m - 1, nx);
        assert(16 * nx * (m - 1) + 16 * nx == 16 * nx * m) by (nonlinear_arith);
    } else {
        assert(16 * nx * m == 0) by (nonlinear_arith)
            requires
                m == 0,
        ;
    }
}

proof fn lemma_surface_prefix_elem(nx: int, k: int, m: int, i: int)
    requires
        0 <= nx,
        0 <= k <= m,
        0 <= i < surface_index_seq(nx, k).len(),
    ensures
        surface_index_seq(nx, m)[i] == surface_index_seq(nx, k)[i],
    decreases m,
{
    if k < m {
        lemma_surface_len(nx, k);
        lemma_surface_len(nx, m - 1);
        assert(16 * nx * k <= 16 * nx * (m - 1)) by (nonlinear_arith)
            requires
                0 <= nx,
                k <= m - 1,
        ;
        lemma_surface_prefix_elem(nx, k, m - 1, i);
    }
}

proof fn lemma_row_prefix_elem(nx: int, qz: int, k: int, m: int, i: int)
    requires
        0 <= k <= m,
        0 <= i < patch_row_indices(nx, qz, k).len(),
    ensures
        patch_row_indices(nx, qz, m)[i] == patch_row_indices(nx, qz, k)[i],
    decreases m,
{
    if k < m {
        lemma_patch_row_len(nx, qz, k);
        lemma_patch_row_len(nx, qz, m - 1);
        lemma_row_prefix_elem(nx, qz, k, m - 1, i);
    }
}

/// The index buffer in closed form: entry `4a + b` of patch `(qx, qz)` is the
/// grid index of row `3qz + a`, column `3qx + b`, cast to `u16`.
pub proof fn lemma_surface_index_at(nx: int, nz: int, qx: int, qz: int, a: int, b: int)
    requires
        0 <= qx < nx,
        0 <= qz < nz,
        0 <= a < 4,
        0 <= b < 4,
    ensures
        surface_index_seq(nx, nz).len() == 16 * nx * nz,
        0 <= 16 * (qz * nx + qx) + 4 * a + b < 16 * nx * nz,
        surface_index_seq(nx, nz)[16 * (qz * nx + qx) + 4 * a + b] == #[verifier::truncate] (((3
            * qz + a) * (3 * nx + 1) + 3 * qx + b) as u16),
{
    let w = 4 * a + b;
    let idx = 16 * (qz * nx + qx) + w;
    lemma_surface_len(nx, nz);
    lemma_surface_len(nx, qz);
    lemma_surface_len(nx, qz + 1);
    assert(idx == 16 * nx * qz + 16 * qx + w && 16 * nx * (qz + 1) == 16 * nx * qz + 16 * nx
        && 16 * nx * (qz + 1) <= 16 * nx * nz && 0 <= 16 * nx * qz) by (nonlinear_arith)
        requires
            idx == 16 * (qz * nx + qx) + w,
            0 <= qz < nz,
            0 <= nx,
    ;
    lemma_surface_prefix_elem(nx, qz + 1, nz, idx);
    let row = patch_row_indices(nx, qz, nx);
    assert(surface_index_seq(nx, qz + 1) == surface_index_seq(nx, qz) + row);
    assert(surface_index_seq(nx, qz + 1)[idx] == row[16 * qx + w]);
    lemma_patch_row_len(nx, qz, qx);
    lemma_patch_row_len(nx, qz, qx + 1);
    lemma_patch_row_len(nx, qz, nx);
    lemma_row_prefix_elem(nx, qz, qx + 1, nx, 16 * qx + w);
    assert(patch_row_indices(nx, qz, qx + 1) == patch_row_indices(nx, qz, qx) + patch_indices(
        nx,
        qx,
        qz,
    ));
    assert(w / 4 == a && w % 4 == b);
}

} // verus!

verus! {

/// Control point `4a + b` of patch `(qx, qz)` lies in grid row `3qz + a` and
/// grid column `3qx + b` of the `3nx + 1` columns: the patch's `x` picks the
/// column and its `z` the row. It is also the entry that the surface's index
/// buffer holds for that point of that patch.
pub proof fn lemma_control_point_grid(nx: int, nz: int, qx: int, qz: int, a: int, b: int)
    requires
        0 <= qx < nx,
        0 <= qz,
        0 <= a < 4,
        0 <= b < 4,
    ensures
        control_point_index(nx, qx, qz, 4 * a + b) % (3 * nx + 1) == 3 * qx + b,
        control_point_index(nx, qx, qz, 4 * a + b) / (3 * nx + 1) == 3 * qz + a,
        qz < nz ==> surface_index_seq(nx, nz)[16 * (qz * nx + qx) + 4 * a + b]
            == #[verifier::truncate] (control_point_index(nx, qx, qz, 4 * a + b) as u16),
{
    let w = 4 * a + b;
    assert(w / 4 == a && w % 4 == b);
    vstd::arithmetic::div_mod::lemma_fundamental_div_mod_converse(
        control_point_index(nx, qx, qz, w),
        3 * nx + 1,
        3 * qz + a,
        3 * qx + b,
    );
    if qz < nz {
        lemma_surface_index_at(nx, nz, qx, qz, a, b);
    }
}

} // verus!
