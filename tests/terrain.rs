use terrain_chunks::{
    axis_coordinate, generate_chunk, grid_indices, palette_for_height, palette_for_normalized,
    sample_points, water_chunk, water_level, NoisePoint, Palette, TerrainChunk, TerrainConfig,
    FIXED_ONE,
};

/// A deterministic stand-in for a noise field: a value in [-1, 1] (fixed
/// point) that depends on the world position alone.
fn field(p: &NoisePoint) -> i32 {
    let v = (p.x / 1000).wrapping_mul(7) + (p.z / 1000).wrapping_mul(13);
    (v.rem_euclid(2 * FIXED_ONE + 1) - FIXED_ONE) as i32
}

fn build(cfg: &TerrainConfig, cx: i32, cz: i32) -> TerrainChunk {
    let samples: Vec<i32> = sample_points(cfg, cx, cz).iter().map(field).collect();
    generate_chunk(cfg, cx, cz, &samples).expect("sample count matches")
}

#[test]
fn standard_config_counts() {
    let cfg = TerrainConfig::standard();
    assert_eq!(cfg.vertex_count_exec(), 289);
    assert_eq!(cfg.triangle_count_exec(), 512);
}

#[test]
fn chunk_has_grid_cardinality() {
    let cfg = TerrainConfig::new(100, 60, 10, 5, 50).unwrap();
    let c = build(&cfg, 3, -2);
    assert_eq!(c.positions.len(), 36);
    assert_eq!(c.colors.len(), 36);
    assert_eq!(c.indices.len(), 3 * 50);
    assert!(c.indices.iter().all(|&i| i < 36));
}

#[test]
fn origin_chunk_scenario() {
    let cfg = TerrainConfig::standard();
    let n = cfg.vertex_count_exec() as usize;
    let samples: Vec<i32> = (0..n)
        .map(|k| (k as i64 * 2 * FIXED_ONE / (n as i64 - 1) - FIXED_ONE) as i32)
        .collect();
    let c = generate_chunk(&cfg, 0, 0, &samples).unwrap();
    assert_eq!(c.positions.len(), 289);
    assert_eq!(c.indices.len() / 3, 512);
    for v in &c.positions {
        assert!(-256 * FIXED_ONE <= v.x && v.x <= 256 * FIXED_ONE);
        assert!(-256 * FIXED_ONE <= v.z && v.z <= 256 * FIXED_ONE);
        assert!(-140 * FIXED_ONE <= v.y && v.y <= 140 * FIXED_ONE);
    }
    assert_eq!(c.positions[0].y, -140 * FIXED_ONE);
    assert_eq!(c.positions[288].y, 140 * FIXED_ONE);
    assert_eq!(c.positions[0].x, -256 * FIXED_ONE);
    assert_eq!(c.positions[288].z, 256 * FIXED_ONE);
}

#[test]
fn repeated_generation_is_identical() {
    let cfg = TerrainConfig::standard();
    let a = build(&cfg, -1, 2);
    let b = build(&cfg, -1, 2);
    assert_eq!(a.positions, b.positions);
    assert_eq!(a.colors, b.colors);
    assert_eq!(a.indices, b.indices);
}

#[test]
fn neighbours_along_x_share_their_edge() {
    let cfg = TerrainConfig::standard();
    let side = 17usize;
    for (cx, cz) in [(0, 0), (-1, -1), (-3, 2)] {
        let a = build(&cfg, cx, cz);
        let b = build(&cfg, cx + 1, cz);
        for j in 0..side {
            assert_eq!(a.positions[j * side + side - 1], b.positions[j * side]);
            assert_eq!(a.colors[j * side + side - 1], b.colors[j * side]);
        }
    }
}

#[test]
fn neighbours_along_z_share_their_edge() {
    let cfg = TerrainConfig::new(300, 200, 40, 7, 100).unwrap();
    let side = 8usize;
    for (cx, cz) in [(0, 0), (2, -1), (-4, -5)] {
        let a = build(&cfg, cx, cz);
        let b = build(&cfg, cx, cz + 1);
        for i in 0..side {
            assert_eq!(a.positions[(side - 1) * side + i], b.positions[i]);
            assert_eq!(a.colors[(side - 1) * side + i], b.colors[i]);
        }
    }
}

fn tenths(t: i64) -> i64 {
    t * FIXED_ONE / 10
}

#[test]
fn band_sweep_matches_threshold_table() {
    let expected = [
        (-10, Palette::Green800),
        (-9, Palette::Green800),
        (-8, Palette::Green800),
        (-7, Palette::Green800),
        (-6, Palette::Green800),
        (-5, Palette::Green800),
        (-4, Palette::Green800),
        (-3, Palette::Green800),
        (-2, Palette::Green600),
        (-1, Palette::Green600),
        (0, Palette::Green600),
        (1, Palette::Green600),
        (2, Palette::Green600),
        (3, Palette::Amber800),
        (4, Palette::Amber700),
        (5, Palette::Amber600),
        (6, Palette::Amber500),
        (7, Palette::Amber400),
        (8, Palette::Yellow500),
        (9, Palette::Yellow400),
        (10, Palette::Amber800),
    ];
    for (t, p) in expected {
        assert_eq!(palette_for_normalized(tenths(t)), p, "at {} tenths", t);
    }
    let half = FIXED_ONE / 20;
    let between = [
        (-9, Palette::Green800),
        (-1, Palette::Green600),
        (2, Palette::Amber800),
        (9, Palette::Amber800),
        (10, Palette::Gray300),
        (11, Palette::Gray100),
    ];
    for (t, p) in between {
        assert_eq!(palette_for_normalized(tenths(t) + half), p, "above {} tenths", t);
    }
}

#[test]
fn deep_colours_never_appear() {
    let mut g = -3 * FIXED_ONE;
    while g <= 3 * FIXED_ONE {
        let p = palette_for_normalized(g);
        assert!(!matches!(
            p,
            Palette::Orange400 | Palette::Blue400 | Palette::White | Palette::Purple400
        ));
        g += FIXED_ONE / 100;
    }
}

#[test]
fn band_of_height_uses_twice_the_scale() {
    assert_eq!(palette_for_height(140 * FIXED_ONE, 70), Palette::Amber800);
    assert_eq!(palette_for_height(141 * FIXED_ONE, 70), Palette::Gray300);
    assert_eq!(palette_for_height(155 * FIXED_ONE, 70), Palette::Gray100);
    assert_eq!(palette_for_height(-29 * FIXED_ONE, 70), Palette::Green800);
    assert_eq!(palette_for_height(-28 * FIXED_ONE, 70), Palette::Green600);
    assert_eq!(palette_for_height(0, 70), Palette::Green600);
}

#[test]
fn chunk_heights_and_colours_follow_samples() {
    let cfg = TerrainConfig::standard();
    let mut samples = vec![0i32; 289];
    samples[5] = 500_000;
    samples[6] = -250_000;
    samples[7] = 1_000_000;
    let c = generate_chunk(&cfg, 0, 0, &samples).unwrap();
    assert_eq!(c.positions[5].y, 70 * FIXED_ONE);
    assert_eq!(c.colors[5], Palette::Amber600);
    assert_eq!(c.positions[6].y, -35 * FIXED_ONE);
    assert_eq!(c.colors[6], Palette::Green800);
    assert_eq!(c.positions[7].y, 140 * FIXED_ONE);
    assert_eq!(c.colors[7], Palette::Amber800);
    assert_eq!(c.positions[0].y, 0);
    assert_eq!(c.colors[0], Palette::Green600);
}

#[test]
fn wrong_sample_count_is_refused() {
    let cfg = TerrainConfig::standard();
    assert!(generate_chunk(&cfg, 0, 0, &vec![0; 288]).is_none());
    assert!(generate_chunk(&cfg, 0, 0, &vec![0; 290]).is_none());
    assert!(generate_chunk(&cfg, 0, 0, &Vec::new()).is_none());
}

#[test]
fn config_out_of_range_is_refused() {
    assert!(TerrainConfig::new(0, 512, 70, 16, 300).is_none());
    assert!(TerrainConfig::new(512, 4096, 70, 16, 300).is_none());
    assert!(TerrainConfig::new(512, 512, 0, 16, 300).is_none());
    assert!(TerrainConfig::new(512, 512, 70, 0, 300).is_none());
    assert!(TerrainConfig::new(512, 512, 70, 2000, 300).is_none());
    assert!(TerrainConfig::new(512, 512, 70, 16, 0).is_none());
    assert_eq!(TerrainConfig::new(512, 512, 70, 16, 300), Some(TerrainConfig::standard()));
}

#[test]
fn axis_coordinates_are_exact() {
    assert_eq!(axis_coordinate(0, 512, 16, 0), -256 * FIXED_ONE);
    assert_eq!(axis_coordinate(0, 512, 16, 16), 256 * FIXED_ONE);
    assert_eq!(axis_coordinate(1, 512, 16, 0), 256 * FIXED_ONE);
    assert_eq!(axis_coordinate(1, 512, 16, 1), 288 * FIXED_ONE);
    assert_eq!(axis_coordinate(-2, 512, 16, 8), -1024 * FIXED_ONE);
    assert_eq!(axis_coordinate(0, 1, 3, 1), -166_667);
}

#[test]
fn sample_points_cover_the_chunk() {
    let cfg = TerrainConfig::standard();
    let pts = sample_points(&cfg, -1, 2);
    assert_eq!(pts.len(), 289);
    assert_eq!(pts[0], NoisePoint { x: -768 * FIXED_ONE, z: 768 * FIXED_ONE });
    assert_eq!(pts[16], NoisePoint { x: -256 * FIXED_ONE, z: 768 * FIXED_ONE });
    assert_eq!(pts[17], NoisePoint { x: -768 * FIXED_ONE, z: 800 * FIXED_ONE });
    assert_eq!(pts[288], NoisePoint { x: -256 * FIXED_ONE, z: 1280 * FIXED_ONE });
}

#[test]
fn single_quad_indices() {
    assert_eq!(grid_indices(1), vec![3, 1, 2, 0, 2, 1]);
    let two = grid_indices(2);
    assert_eq!(two.len(), 24);
    assert_eq!(&two[18..24], &[8, 5, 7, 4, 7, 5]);
}

#[test]
fn water_sits_below_zero() {
    let cfg = TerrainConfig::standard();
    assert_eq!(water_level(&cfg), -8_750_000);
    let w = water_chunk(&cfg, 1, 0);
    assert_eq!(w.positions.len(), 289);
    assert_eq!(w.indices.len(), 1536);
    assert!(w.positions.iter().all(|v| v.y == -8_750_000));
    assert_eq!(w.positions[0].x, 256 * FIXED_ONE);
    assert_eq!(w.positions[0].z, -256 * FIXED_ONE);
}

#[test]
fn noise_unit_is_divisor_in_fixed_point() {
    assert_eq!(TerrainConfig::standard().noise_unit(), 300 * FIXED_ONE as u64);
}
