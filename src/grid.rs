use vstd::prelude::*;
use vstd::arithmetic::div_mod::{lemma_div_is_ordered, lemma_div_by_multiple};
use crate::config::{TerrainConfig, FIXED_ONE, MAX_CHUNK_EXTENT, MAX_SUBDIVISIONS};

verus! {

/// A vertex position in world space, in fixed point.
#[derive(Clone, Copy, Debug, PartialEq, Eq, Structural)]
pub struct Vertex {
    pub x: i64,
    pub y: i64,
    pub z: i64,
}

/// A horizontal world-space position, in fixed point, at which the noise
/// field is sampled for one vertex.
#[derive(Clone, Copy, Debug, PartialEq, Eq, Structural)]
pub struct NoisePoint {
    pub x: i64,
    pub z: i64,
}

/// Extent of a chunk side in fixed point.
pub open spec fn fixed_extent(units: int) -> int {
    units * FIXED_ONE
}

/// Offset of grid line `i` of `n` from the centre of a side of fixed-point
/// length `ext`: the side runs from `-ext / 2` to `ext / 2`.
pub open spec fn local_offset(ext: int, n: int, i: int) -> int {
    (i * ext) / n - ext / 2
}

/// World coordinate of grid line `i` of chunk `chunk` along one axis.
pub open spec fn world_offset(chunk: int, ext: int, n: int, i: int) -> int {
    chunk * ext + local_offset(ext, n, i)
}

/// Column of vertex `k` (along x).
pub open spec fn column(cfg: TerrainConfig, k: int) -> int {
    k % cfg.side()
}

/// Row of vertex `k` (along z).
pub open spec fn row(cfg: TerrainConfig, k: int) -> int {
    k / cfg.side()
}

/// World x of column `i` of chunk column `cx`.
pub open spec fn world_x(cfg: TerrainConfig, cx: int, i: int) -> int {
    world_offset(cx, fixed_extent(cfg.chunk_width as int), cfg.subdivisions as int, i)
}

/// World z of row `j` of chunk row `cz`.
pub open spec fn world_z(cfg: TerrainConfig, cz: int, j: int) -> int {
    world_offset(cz, fixed_extent(cfg.chunk_height as int), cfg.subdivisions as int, j)
}

/// Vertex `k` of chunk `(cx, cz)` stands at `(world_x, y, world_z)` of its
/// column and row.
pub open spec fn placed_at(v: Vertex, cfg: TerrainConfig, cx: int, cz: int, k: int, y: int) -> bool {
    &&& v.x == world_x(cfg, cx, column(cfg, k))
    &&& v.y == y
    &&& v.z == world_z(cfg, cz, row(cfg, k))
}

/// Vertex index of corner `c` (0 to 5) of quad `q` of an `n x n` grid: each
/// quad gives the triangles (top right, right, top) and (here, top, right),
/// where "right" is the next column and "top" the next row.
pub open spec fn quad_corner(n: int, q: int, c: int) -> int {
    let w = n + 1;
    let base = (q / n) * w + q % n;
    if c == 0 {
        base + w + 1
    } else if c == 1 {
        base + 1
    } else if c == 2 {
        base + w
    } else if c == 3 {
        base
    } else if c == 4 {
        base + w
    } else {
        base + 1
    }
}

/// The triangle list of an `n x n` grid: six indices per quad, quads in
/// row-major order.
pub open spec fn is_grid_indices(idx: Seq<u32>, n: int) -> bool {
    &&& idx.len() == 6 * n * n
    &&& forall|q: int, c: int|
        0 <= q < n * n && 0 <= c < 6 ==> idx[6 * q + c] == #[trigger] quad_corner(n, q, c)
}

/// World coordinate of grid line `i` along one axis of chunk `chunk`.
pub fn axis_coordinate(chunk: i32, units: u32, n: u32, i: u32) -> (r: i64)
    requires
        0 < units <= MAX_CHUNK_EXTENT,
        0 < n <= MAX_SUBDIVISIONS,
        i <= n,
    ensures
        r == world_offset(chunk as int, fixed_extent(units as int), n as int, i as int),
{
    proof {
        assert(units * 1_000_000 <= 2048 * 1_000_000) by (nonlinear_arith)
            requires
                units <= 2048,
        ;
    }
    let ext: u64 = (units as u64) * (FIXED_ONE as u64);
    proof {
        assert((i as int) * (ext as int) <= (n as int) * (ext as int)) by (nonlinear_arith)
            requires
                i <= n,
                0 <= ext,
        ;
        assert((n as int) * (ext as int) <= 1024 * 2048 * 1_000_000) by (nonlinear_arith)
            requires
                n <= 1024,
                ext <= 2048 * 1_000_000,
        ;
        lemma_div_is_ordered(i as int * ext as int, n as int * ext as int, n as int);
        lemma_div_by_multiple(ext as int, n as int);
        assert(n as int * ext as int == ext as int * n as int) by (nonlinear_arith);
    }
    let step: u64 = ((i as u64) * ext) / (n as u64);
    assert(step <= ext);
    let local: i64 = (step as i64) - ((ext / 2) as i64);
    proof {
        assert(-2147483648 * 2048000000 <= (chunk as int) * (ext as int) <= 2147483647
            * 2048000000) by (nonlinear_arith)
            requires
                -2147483648 <= chunk <= 2147483647,
                0 <= ext <= 2048000000,
        ;
    }
    let base: i64 = (chunk as i64) * (ext as i64);
    base + local
}

/// The world positions at which the noise field is sampled for chunk
/// `(cx, cz)`, one per vertex, in vertex order: row by row, each row from
/// the lowest x up.
pub fn sample_points(cfg: &TerrainConfig, cx: i32, cz: i32) -> (r: Vec<NoisePoint>)
    requires
        cfg.wf(),
    ensures
        r@.len() == cfg.vertex_count(),
        forall|k: int|
            0 <= k < r@.len() ==> #[trigger] r@[k].x == world_x(*cfg, cx as int, column(*cfg, k))
                && r@[k].z == world_z(*cfg, cz as int, row(*cfg, k)),
{
    let count = cfg.vertex_count_exec();
    let side: u32 = cfg.subdivisions + 1;
    let mut r: Vec<NoisePoint> = Vec::new();
    let mut k: u32 = 0;
    while k < count
        invariant
            cfg.wf(),
            side == cfg.side(),
            count == cfg.vertex_count(),
            k <= count,
            r@.len() == k,
            forall|m: int|
                0 <= m < k ==> #[trigger] r@[m].x == world_x(*cfg, cx as int, column(*cfg, m))
                    && r@[m].z == world_z(*cfg, cz as int, row(*cfg, m)),
        decreases count - k,
    {
        let i = k % side;
        let j = k / side;
        proof {
            lemma_div_is_ordered(k as int, count as int - 1, side as int);
            lemma_div_by_multiple(side as int, side as int);
            assert((side * side - 1) as int / side as int <= side - 1) by (nonlinear_arith)
                requires
                    side > 0,
                    (side * side) as int / side as int == side,
            ;
        }
        let x = axis_coordinate(cx, cfg.chunk_width, cfg.subdivisions, i);
        let z = axis_coordinate(cz, cfg.chunk_height, cfg.subdivisions, j);
        r.push(NoisePoint { x, z });
        k = k + 1;
    }
    r
}

/// A flat grid of chunk `(cx, cz)` at height `y`, in vertex order.
pub fn flat_grid(cfg: &TerrainConfig, cx: i32, cz: i32, y: i64) -> (r: Vec<Vertex>)
    requires
        cfg.wf(),
    ensures
        r@.len() == cfg.vertex_count(),
        forall|k: int|
            0 <= k < r@.len() ==> placed_at(#[trigger] r@[k], *cfg, cx as int, cz as int, k, y as int),
{
    let points = sample_points(cfg, cx, cz);
    let mut r: Vec<Vertex> = Vec::new();
    let mut k: usize = 0;
    while k < points.len()
        invariant
            points@.len() == cfg.vertex_count(),
            forall|m: int|
                0 <= m < points@.len() ==> #[trigger] points@[m].x == world_x(
                    *cfg,
                    cx as int,
                    column(*cfg, m),
                ) && points@[m].z == world_z(*cfg, cz as int, row(*cfg, m)),
            k <= points@.len(),
            r@.len() == k,
            forall|m: int|
                0 <= m < k ==> placed_at(#[trigger] r@[m], *cfg, cx as int, cz as int, m, y as int),
        decreases points@.len() - k,
    {
        let p = points[k];
        r.push(Vertex { x: p.x, y, z: p.z });
        k = k + 1;
    }
    r
}

/// The triangle list of an `n x n` grid of quads, two triangles per quad.
pub fn grid_indices(n: u32) -> (r: Vec<u32>)
    requires
        0 < n <= MAX_SUBDIVISIONS,
    ensures
        is_grid_indices(r@, n as int),
        forall|t: int| 0 <= t < r@.len() ==> #[trigger] r@[t] < (n + 1) * (n + 1),
{
    let w: u32 = n + 1;
    proof {
        assert(n * n <= 1024 * 1024 && w * w <= 1025 * 1025) by (nonlinear_arith)
            requires
                n <= 1024,
                w == n + 1,
        ;
    }
    let quads: u32 = n * n;
    let mut r: Vec<u32> = Vec::new();
    let mut q: u32 = 0;
    while q < quads
        invariant
            0 < n <= MAX_SUBDIVISIONS,
            w == n + 1,
            quads == n * n,
            w * w <= 1025 * 1025,
            q <= quads,
            r@.len() == 6 * q,
            forall|p: int, c: int|
                0 <= p < q && 0 <= c < 6 ==> r@[6 * p + c] == #[trigger] quad_corner(
                    n as int,
                    p,
                    c,
                ),
            forall|t: int| 0 <= t < r@.len() ==> #[trigger] r@[t] < w * w,
        decreases quads - q,
    {
        let i = q % n;
        let j = q / n;
        proof {
            lemma_div_is_ordered(q as int, quads as int - 1, n as int);
            lemma_div_by_multiple(n as int, n as int);
            assert((n * n - 1) as int / n as int <= n - 1) by (nonlinear_arith)
                requires
                    n > 0,
                    (n * n) as int / n as int == n,
            ;
            assert(j * w + i + w + 1 < w * w) by (nonlinear_arith)
                requires
                    j <= n - 1,
                    i <= n - 1,
                    w == n + 1,
            ;
        }
        let base: u32 = j * w + i;
        let ghost before = r@;
        r.push(base + w + 1);
        r.push(base + 1);
        r.push(base + w);
        r.push(base);
        r.push(base + w);
        r.push(base + 1);
        proof {
            assert forall|p: int, c: int|
                0 <= p < q + 1 && 0 <= c < 6 implies r@[6 * p + c] == #[trigger] quad_corner(
                n as int,
                p,
                c,
            ) by {
                if p < q {
                    assert(r@[6 * p + c] == before[6 * p + c]);
                }
            }
        }
        q = q + 1;
    }
    proof {
        assert(6 * (n * n) == 6 * n * n) by (nonlinear_arith);
    }
    r
}

} // verus!
