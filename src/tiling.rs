use vstd::prelude::*;
use vstd::arithmetic::div_mod::{
    lemma_div_is_ordered, lemma_div_by_multiple, lemma_fundamental_div_mod_converse_div,
    lemma_fundamental_div_mod_converse_mod,
};
use crate::config::{TerrainConfig, FIXED_ONE};
use crate::grid::{column, row, world_x, world_z, local_offset, fixed_extent, quad_corner};
use crate::chunk::TerrainChunk;

verus! {

/// `samples` holds, for each vertex of chunk `(cx, cz)`, the value of the
/// noise field `field` at the vertex's world position.
pub open spec fn sampled_from(
    samples: Seq<i32>,
    cfg: TerrainConfig,
    cx: int,
    cz: int,
    field: spec_fn(int, int) -> i32,
) -> bool {
    &&& samples.len() == cfg.vertex_count()
    &&& forall|k: int|
        0 <= k < cfg.vertex_count() ==> #[trigger] samples[k] == field(
            world_x(cfg, cx, column(cfg, k)),
            world_z(cfg, cz, row(cfg, k)),
        )
}

proof fn lemma_vertex_of(cfg: TerrainConfig, i: int, j: int)
    requires
        cfg.wf(),
        0 <= i <= cfg.subdivisions,
        0 <= j <= cfg.subdivisions,
    ensures
        column(cfg, j * cfg.side() + i) == i,
        row(cfg, j * cfg.side() + i) == j,
        0 <= j * cfg.side() + i < cfg.vertex_count(),
{
    lemma_fundamental_div_mod_converse_div(j * cfg.side() + i, cfg.side(), j, i);
    lemma_fundamental_div_mod_converse_mod(j * cfg.side() + i, cfg.side(), j, i);
    assert(0 <= j * cfg.side() + i < cfg.side() * cfg.side()) by (nonlinear_arith)
        requires
            0 <= i < cfg.side(),
            0 <= j < cfg.side(),
    ;
}

proof fn lemma_vertex_in_grid(cfg: TerrainConfig, k: int)
    requires
        cfg.wf(),
        0 <= k < cfg.vertex_count(),
    ensures
        0 <= column(cfg, k) <= cfg.subdivisions,
        0 <= row(cfg, k) <= cfg.subdivisions,
{
    let s = cfg.side();
    lemma_div_is_ordered(0, k, s);
    lemma_div_is_ordered(k, s * s - 1, s);
    lemma_div_by_multiple(s, s);
    assert((s * s - 1) / s <= s - 1) by (nonlinear_arith)
        requires
            s > 0,
            (s * s) / s == s,
    ;
}

/// The last grid line of a side lies half an extent past the centre.
proof fn lemma_last_line(ext: int, n: int)
    requires
        0 <= ext,
        0 < n,
    ensures
        local_offset(ext, n, n) == ext - ext / 2,
{
    lemma_div_by_multiple(ext, n);
    assert(n * ext == ext * n) by (nonlinear_arith);
}

proof fn lemma_offset_range(ext: int, n: int, i: int)
    requires
        0 <= ext,
        0 < n,
        0 <= i <= n,
    ensures
        -(ext / 2) <= local_offset(ext, n, i) <= ext - ext / 2,
{
    assert(0 <= i * ext <= n * ext) by (nonlinear_arith)
        requires
            0 <= i <= n,
            0 <= ext,
    ;
    lemma_div_is_ordered(0, i * ext, n);
    lemma_div_is_ordered(i * ext, n * ext, n);
    lemma_last_line(ext, n);
}

proof fn lemma_shared_line(cfg: TerrainConfig, c: int, units: int)
    requires
        cfg.wf(),
        0 < units,
    ensures
        c * fixed_extent(units) + local_offset(fixed_extent(units), cfg.subdivisions as int, cfg.subdivisions as int)
            == (c + 1) * fixed_extent(units) + local_offset(fixed_extent(units), cfg.subdivisions as int, 0),
{
    let ext = fixed_extent(units);
    assert(ext > 0) by (nonlinear_arith)
        requires
            units > 0,
            ext == units * 1_000_000,
    ;
    lemma_last_line(ext, cfg.subdivisions as int);
    assert(0int * ext / (cfg.subdivisions as int) == 0);
    assert((c + 1) * ext == c * ext + ext) by (nonlinear_arith);
}

/// Chunks built from the same configuration, chunk coordinate and noise
/// samples are identical: positions, colours and triangles alike.
pub proof fn lemma_chunk_determined(
    cfg: TerrainConfig,
    cx: int,
    cz: int,
    samples: Seq<i32>,
    a: TerrainChunk,
    b: TerrainChunk,
)
    requires
        cfg.wf(),
        a.is_chunk(cfg, cx, cz, samples),
        b.is_chunk(cfg, cx, cz, samples),
    ensures
        a.positions@ == b.positions@,
        a.colors@ == b.colors@,
        a.indices@ == b.indices@,
{
    assert(a.positions@ =~= b.positions@) by {
        assert forall|k: int| 0 <= k < a.positions@.len() implies a.positions@[k]
            == b.positions@[k] by {
        }
    }
    assert(a.colors@ =~= b.colors@) by {
        assert forall|k: int| 0 <= k < a.colors@.len() implies a.colors@[k]
            == b.colors@[k] by {
        }
    }
    assert(a.indices@ =~= b.indices@) by {
        let n = cfg.subdivisions as int;
        assert forall|t: int| 0 <= t < a.indices@.len() implies a.indices@[t]
            == b.indices@[t] by {
            let q = t / 6;
            let c = t % 6;
            assert(t == 6 * q + c);
            assert(0 <= c < 6);
            assert(0 <= q < n * n) by (nonlinear_arith)
                requires
                    t == 6 * q + c,
                    0 <= c < 6,
                    0 <= t < 6 * n * n,
            ;
            assert(a.indices@[6 * q + c] == quad_corner(n, q, c));
            assert(b.indices@[6 * q + c] == quad_corner(n, q, c));

        }
    }
}

/// Chunks `(cx, cz)` and `(cx + 1, cz)`, sampled from one noise field, meet
/// without a seam: along their shared edge, vertex `j` of the first chunk's
/// last column and of the second chunk's first column has the same world
/// position, height and colour.
pub proof fn lemma_seam_along_x(
    cfg: TerrainConfig,
    cx: int,
    cz: int,
    field: spec_fn(int, int) -> i32,
    sa: Seq<i32>,
    sb: Seq<i32>,
    a: TerrainChunk,
    b: TerrainChunk,
    j: int,
)
    requires
        cfg.wf(),
        sampled_from(sa, cfg, cx, cz, field),
        sampled_from(sb, cfg, cx + 1, cz, field),
        a.is_chunk(cfg, cx, cz, sa),
        b.is_chunk(cfg, cx + 1, cz, sb),
        0 <= j <= cfg.subdivisions,
    ensures
        a.positions@[j * cfg.side() + cfg.subdivisions] == b.positions@[j * cfg.side()],
        a.colors@[j * cfg.side() + cfg.subdivisions] == b.colors@[j * cfg.side()],
{
    let n = cfg.subdivisions as int;
    let ka = j * cfg.side() + n;
    let kb = j * cfg.side() + 0;
    lemma_vertex_of(cfg, n, j);
    lemma_vertex_of(cfg, 0, j);
    lemma_shared_line(cfg, cx, cfg.chunk_width as int);
    assert(world_x(cfg, cx, n) == world_x(cfg, cx + 1, 0));
    assert(sa[ka] == sb[kb]);
}

/// Chunks `(cx, cz)` and `(cx, cz + 1)`, sampled from one noise field, meet
/// without a seam: along their shared edge, vertex `i` of the first chunk's
/// last row and of the second chunk's first row has the same world position,
/// height and colour.
pub proof fn lemma_seam_along_z(
    cfg: TerrainConfig,
    cx: int,
    cz: int,
    field: spec_fn(int, int) -> i32,
    sa: Seq<i32>,
    sb: Seq<i32>,
    a: TerrainChunk,
    b: TerrainChunk,
    i: int,
)
    requires
        cfg.wf(),
        sampled_from(sa, cfg, cx, cz, field),
        sampled_from(sb, cfg, cx, cz + 1, field),
        a.is_chunk(cfg, cx, cz, sa),
        b.is_chunk(cfg, cx, cz + 1, sb),
        0 <= i <= cfg.subdivisions,
    ensures
        a.positions@[cfg.subdivisions * cfg.side() + i] == b.positions@[i],
        a.colors@[cfg.subdivisions * cfg.side() + i] == b.colors@[i],
{
    let n = cfg.subdivisions as int;
    let ka = n * cfg.side() + i;
    let kb = 0 * cfg.side() + i;
    lemma_vertex_of(cfg, i, n);
    lemma_vertex_of(cfg, i, 0);
    lemma_shared_line(cfg, cz, cfg.chunk_height as int);
    assert(world_z(cfg, cz, n) == world_z(cfg, cz + 1, 0));
    assert(sa[ka] == sb[kb]);
}

/// Every vertex of chunk `(cx, cz)` lies within half a chunk extent of the
/// chunk's centre `(cx * width, cz * height)`, and a vertex whose noise
/// sample lies in `[-1, 1]` has a height in `[-2 * height_scale,
/// 2 * height_scale]` (all in fixed point).
pub proof fn lemma_chunk_bounds(
    cfg: TerrainConfig,
    cx: int,
    cz: int,
    samples: Seq<i32>,
    a: TerrainChunk,
    k: int,
)
    requires
        cfg.wf(),
        a.is_chunk(cfg, cx, cz, samples),
        0 <= k < cfg.vertex_count(),
    ensures
        cx * fixed_extent(cfg.chunk_width as int) - fixed_extent(cfg.chunk_width as int) / 2
            <= a.positions@[k].x <= cx * fixed_extent(cfg.chunk_width as int) + fixed_extent(
            cfg.chunk_width as int,
        ) / 2,
        cz * fixed_extent(cfg.chunk_height as int) - fixed_extent(cfg.chunk_height as int) / 2
            <= a.positions@[k].z <= cz * fixed_extent(cfg.chunk_height as int) + fixed_extent(
            cfg.chunk_height as int,
        ) / 2,
        -FIXED_ONE <= samples[k] <= FIXED_ONE ==> -2 * cfg.height_scale * FIXED_ONE
            <= a.positions@[k].y <= 2 * cfg.height_scale * FIXED_ONE,
{
    let n = cfg.subdivisions as int;
    let ew = fixed_extent(cfg.chunk_width as int);
    let eh = fixed_extent(cfg.chunk_height as int);
    lemma_vertex_in_grid(cfg, k);
    lemma_offset_range(ew, n, column(cfg, k));
    lemma_offset_range(eh, n, row(cfg, k));
    assert(ew - ew / 2 == ew / 2);
    assert(eh - eh / 2 == eh / 2);
    let s = samples[k] as int;
    let h = cfg.height_scale as int;
    if -FIXED_ONE <= s <= FIXED_ONE {
        assert(-2 * h * 1_000_000 <= s * h * 2 <= 2 * h * 1_000_000) by (nonlinear_arith)
            requires
                -1_000_000 <= s <= 1_000_000,
                0 < h,
        ;
    }
}

} // verus!
