use vstd::prelude::*;

verus! {

/// One world unit, and a noise value of one, in fixed point.
pub const FIXED_ONE: i64 = 1_000_000;

/// Largest chunk extent, in world units, that keeps world coordinates of
/// every `i32` chunk coordinate inside `i64`.
pub const MAX_CHUNK_EXTENT: u32 = 2048;

/// Largest subdivision count, so that vertex indices fit in `u32`.
pub const MAX_SUBDIVISIONS: u32 = 1024;

/// Largest height scale, in world units.
pub const MAX_HEIGHT_SCALE: u32 = 65536;

/// Fixed settings of the terrain generator.
#[derive(Clone, Copy, Debug, PartialEq, Eq, Structural)]
pub struct TerrainConfig {
    /// Extent of a chunk along x, in world units.
    pub chunk_width: u32,
    /// Extent of a chunk along z, in world units.
    pub chunk_height: u32,
    /// Vertical scale of the noise, in world units.
    pub height_scale: u32,
    /// Number of quads along each side of a chunk.
    pub subdivisions: u32,
    /// World units per unit of noise input: larger gives smoother terrain.
    pub noise_divisor: u32,
}

impl TerrainConfig {
    pub open spec fn wf(&self) -> bool {
        &&& 0 < self.chunk_width <= MAX_CHUNK_EXTENT
        &&& 0 < self.chunk_height <= MAX_CHUNK_EXTENT
        &&& 0 < self.height_scale <= MAX_HEIGHT_SCALE
        &&& 0 < self.subdivisions <= MAX_SUBDIVISIONS
        &&& 0 < self.noise_divisor
    }

    /// Number of vertices along one side of a chunk.
    pub open spec fn side(&self) -> int {
        self.subdivisions + 1
    }

    pub open spec fn vertex_count(&self) -> int {
        self.side() * self.side()
    }

    pub open spec fn triangle_count(&self) -> int {
        2 * self.subdivisions * self.subdivisions
    }

    /// Builds a configuration, or `None` where a setting is out of range.
    pub fn new(
        chunk_width: u32,
        chunk_height: u32,
        height_scale: u32,
        subdivisions: u32,
        noise_divisor: u32,
    ) -> (r: Option<TerrainConfig>)
        ensures
            r matches Some(c) ==> c.wf() && c == (TerrainConfig {
                chunk_width,
                chunk_height,
                height_scale,
                subdivisions,
                noise_divisor,
            }),
            r is None <==> !(TerrainConfig {
                chunk_width,
                chunk_height,
                height_scale,
                subdivisions,
                noise_divisor,
            }).wf(),
    {
        let c = TerrainConfig { chunk_width, chunk_height, height_scale, subdivisions, noise_divisor };
        if 0 < chunk_width && chunk_width <= MAX_CHUNK_EXTENT && 0 < chunk_height && chunk_height
            <= MAX_CHUNK_EXTENT && 0 < height_scale && height_scale <= MAX_HEIGHT_SCALE && 0
            < subdivisions && subdivisions <= MAX_SUBDIVISIONS && 0 < noise_divisor {
            Some(c)
        } else {
            None
        }
    }

    /// The demo's settings: 512 x 512 chunks of 16 x 16 quads, height scale 70,
    /// noise input one unit per 300 world units.
    pub fn standard() -> (r: TerrainConfig)
        ensures
            r.wf(),
            r == (TerrainConfig {
                chunk_width: 512,
                chunk_height: 512,
                height_scale: 70,
                subdivisions: 16,
                noise_divisor: 300,
            }),
    {
        TerrainConfig {
            chunk_width: 512,
            chunk_height: 512,
            height_scale: 70,
            subdivisions: 16,
            noise_divisor: 300,
        }
    }

    /// Fixed-point world distance that makes one unit of noise input: a
    /// world position `p` is sampled at `p / noise_unit()`.
    pub fn noise_unit(&self) -> (r: u64)
        requires
            self.wf(),
        ensures
            r == self.noise_divisor * FIXED_ONE,
    {
        (self.noise_divisor as u64) * (FIXED_ONE as u64)
    }

    /// Number of vertices of a chunk.
    pub fn vertex_count_exec(&self) -> (r: u32)
        requires
            self.wf(),
        ensures
            r == self.vertex_count(),
    {
        let s = self.subdivisions + 1;
        proof {
            assert(s * s <= 1025 * 1025) by (nonlinear_arith)
                requires
                    s <= 1025,
            ;
        }
        s * s
    }

    /// Number of triangles of a chunk.
    pub fn triangle_count_exec(&self) -> (r: u32)
        requires
            self.wf(),
        ensures
            r == self.triangle_count(),
    {
        let n = self.subdivisions;
        proof {
            assert(2 * n * n <= 2 * 1024 * 1024) by (nonlinear_arith)
                requires
                    n <= 1024,
            ;
        }
        2 * n * n
    }
}

} // verus!
