use vstd::prelude::*;
use crate::config::{TerrainConfig, FIXED_ONE};
use crate::grid::{
    Vertex, column, row, world_x, world_z, placed_at, is_grid_indices, flat_grid, grid_indices,
};
use crate::palette::{Palette, palette_of, height_normalizer, palette_for_height};

verus! {

/// Factor applied to every height after displacement.
pub const AMPLIFICATION: i64 = 2;

/// Fixed-point height of a vertex whose noise sample is `s` (fixed point).
pub open spec fn displaced_height(cfg: TerrainConfig, s: int) -> int {
    s * cfg.height_scale * AMPLIFICATION
}

/// Colour of a vertex whose noise sample is `s`.
pub open spec fn band_of(cfg: TerrainConfig, s: int) -> Palette {
    palette_of(displaced_height(cfg, s), height_normalizer(cfg.height_scale as int))
}

/// Fixed-point height of the water plane: half the height scale below zero,
/// raised by six sixteenths of the height scale.
pub open spec fn water_height(cfg: TerrainConfig) -> int {
    -((cfg.height_scale * FIXED_ONE) / 2) + (cfg.height_scale * FIXED_ONE * 6) / 16
}

/// A displaced, coloured terrain chunk: one position and one colour per
/// vertex, and a triangle list of vertex indices.
#[derive(Debug)]
pub struct TerrainChunk {
    pub positions: Vec<Vertex>,
    pub colors: Vec<Palette>,
    pub indices: Vec<u32>,
}

/// A flat grid mesh: positions and a triangle list.
#[derive(Debug)]
pub struct GridMesh {
    pub positions: Vec<Vertex>,
    pub indices: Vec<u32>,
}

impl TerrainChunk {
    /// This is chunk `(cx, cz)` of `cfg` displaced by `samples`, one noise
    /// sample per vertex in vertex order.
    pub open spec fn is_chunk(
        &self,
        cfg: TerrainConfig,
        cx: int,
        cz: int,
        samples: Seq<i32>,
    ) -> bool {
        &&& samples.len() == cfg.vertex_count()
        &&& self.positions@.len() == cfg.vertex_count()
        &&& self.colors@.len() == cfg.vertex_count()
        &&& forall|k: int|
            0 <= k < cfg.vertex_count() ==> placed_at(
                #[trigger] self.positions@[k],
                cfg,
                cx,
                cz,
                k,
                displaced_height(cfg, samples[k] as int),
            )
        &&& forall|k: int|
            0 <= k < cfg.vertex_count() ==> #[trigger] self.colors@[k] == band_of(
                cfg,
                samples[k] as int,
            )
        &&& is_grid_indices(self.indices@, cfg.subdivisions as int)
        &&& forall|t: int|
            0 <= t < self.indices@.len() ==> #[trigger] self.indices@[t] < cfg.vertex_count()
    }
}

proof fn lemma_triangle_indices(cfg: TerrainConfig)
    ensures
        6 * cfg.subdivisions * cfg.subdivisions == 3 * cfg.triangle_count(),
{
    assert(6 * cfg.subdivisions * cfg.subdivisions == 3 * (2 * cfg.subdivisions
        * cfg.subdivisions)) by (nonlinear_arith);
}

/// Builds chunk `(cx, cz)` from its noise samples, one per vertex in the
/// order of `sample_points`. Each vertex is lifted to its displaced height
/// and coloured by its band. `None` where the number of samples is not the
/// number of vertices.
pub fn generate_chunk(cfg: &TerrainConfig, cx: i32, cz: i32, samples: &Vec<i32>) -> (r: Option<
    TerrainChunk,
>)
    requires
        cfg.wf(),
    ensures
        r is None <==> samples@.len() != cfg.vertex_count(),
        r matches Some(c) ==> c.is_chunk(*cfg, cx as int, cz as int, samples@),
        r matches Some(c) ==> c.positions@.len() == cfg.vertex_count() && c.indices@.len() == 3
            * cfg.triangle_count(),
{
    let count = cfg.vertex_count_exec();
    if samples.len() != count as usize {
        return None;
    }
    let mut positions = flat_grid(cfg, cx, cz, 0);
    let mut colors: Vec<Palette> = Vec::new();
    let scale: i64 = cfg.height_scale as i64;
    let mut k: usize = 0;
    while k < samples.len()
        invariant
            cfg.wf(),
            scale == cfg.height_scale,
            samples@.len() == cfg.vertex_count(),
            positions@.len() == cfg.vertex_count(),
            k <= samples@.len(),
            colors@.len() == k,
            forall|m: int|
                0 <= m < k ==> placed_at(
                    #[trigger] positions@[m],
                    *cfg,
                    cx as int,
                    cz as int,
                    m,
                    displaced_height(*cfg, samples@[m] as int),
                ),
            forall|m: int|
                k <= m < positions@.len() ==> placed_at(
                    #[trigger] positions@[m],
                    *cfg,
                    cx as int,
                    cz as int,
                    m,
                    0,
                ),
            forall|m: int|
                0 <= m < k ==> #[trigger] colors@[m] == band_of(*cfg, samples@[m] as int),
        decreases samples@.len() - k,
    {
        let s = samples[k];
        proof {
            assert(-2147483648 * 65536 * 2 <= s * scale * 2 <= 2147483647 * 65536 * 2)
                by (nonlinear_arith)
                requires
                    -2147483648 <= s <= 2147483647,
                    0 < scale <= 65536,
            ;
        }
        let height: i64 = (s as i64) * scale * AMPLIFICATION;
        let v = positions[k];
        positions.set(k, Vertex { x: v.x, y: height, z: v.z });
        colors.push(palette_for_height(height, cfg.height_scale));
        k = k + 1;
    }
    let indices = grid_indices(cfg.subdivisions);
    proof {
        lemma_triangle_indices(*cfg);
    }
    Some(TerrainChunk { positions, colors, indices })
}

/// Fixed-point height of the water plane of `cfg`.
pub fn water_level(cfg: &TerrainConfig) -> (r: i64)
    requires
        cfg.wf(),
    ensures
        r == water_height(*cfg),
{
    proof {
        assert(cfg.height_scale * 1_000_000 * 6 <= 65536 * 1_000_000 * 6) by (nonlinear_arith)
            requires
                cfg.height_scale <= 65536,
        ;
    }
    let h: i64 = (cfg.height_scale as i64) * FIXED_ONE;
    -(h / 2) + (h * 6) / 16
}

/// The water plane of chunk `(cx, cz)`: the chunk's flat grid at the water
/// level.
pub fn water_chunk(cfg: &TerrainConfig, cx: i32, cz: i32) -> (r: GridMesh)
    requires
        cfg.wf(),
    ensures
        r.positions@.len() == cfg.vertex_count(),
        forall|k: int|
            0 <= k < cfg.vertex_count() ==> placed_at(
                #[trigger] r.positions@[k],
                *cfg,
                cx as int,
                cz as int,
                k,
                water_height(*cfg),
            ),
        is_grid_indices(r.indices@, cfg.subdivisions as int),
        r.indices@.len() == 3 * cfg.triangle_count(),
        forall|t: int| 0 <= t < r.indices@.len() ==> #[trigger] r.indices@[t] < cfg.vertex_count(),
{
    let y = water_level(cfg);
    proof {
        lemma_triangle_indices(*cfg);
    }
    GridMesh { positions: flat_grid(cfg, cx, cz, y), indices: grid_indices(cfg.subdivisions) }
}

} // verus!
