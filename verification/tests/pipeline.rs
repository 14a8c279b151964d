//! End-to-end runs: the verified planning, addressing, thresholding and
//! cropping driven through the same single-precision gradient kernel the
//! generator's frontend uses.

use lerp::Lerp;
use nalgebra::Vector2;

use stamp_noise::finish::cut_noise_to_dimensions;
use stamp_noise::plan::plan_noise;
use stamp_noise::sampling::locate_all;
use stamp_noise::threshold::{order_key, threshold_grid};

fn stamp_field(vector: &Vector2<f32>, size: usize) -> Vec<Vec<f32>> {
    let fsize = size as f32;
    (0..size)
        .map(|x| {
            let fx = x as f32;
            (0..size)
                .map(|y| {
                    let fy = y as f32;
                    Vector2::new(fx - (fsize / 2.0) + 0.5, fy - (fsize / 2.0) + 0.5)
                        .scale(1.0 / ((fsize / 2.0) * 2.0f32.sqrt()))
                        .dot(vector)
                })
                .collect()
        })
        .collect()
}

fn smoothstep(x: f32) -> f32 {
    ((8.0 * x - 3.0).tanh() + 1.0) / 2.0
}

fn key_of(v: f32) -> u32 {
    let v = if v == 0.0 { 0.0f32 } else { v };
    order_key(v.to_bits())
}

fn generate(
    seed: &str,
    accuracy: u32,
    stamp_size: usize,
    world_size: usize,
    lower_range: f32,
    upper_range: f32,
) -> Vec<Vec<bool>> {
    let plan = plan_noise(seed, accuracy, stamp_size, world_size).expect("parameters are valid");
    let step = 2.0 * std::f32::consts::PI / accuracy as f32;
    let stamps: Vec<Vec<Vec<f32>>> = (0..accuracy)
        .map(|i| {
            stamp_field(
                &Vector2::new((i as f32 * step).cos(), (i as f32 * step).sin()),
                plan.real_stamp_size,
            )
        })
        .collect();
    let points = locate_all(stamp_size, plan.real_stamp_size, plan.real_world_size, &plan.cells);
    let keys: Vec<Vec<u32>> = points
        .iter()
        .map(|row| {
            row.iter()
                .map(|p| {
                    let x1 = stamps[p.s11.stamp][p.s11.local_x][p.s11.local_y];
                    let x2 = stamps[p.s01.stamp][p.s01.local_x][p.s01.local_y];
                    let x3 = stamps[p.s10.stamp][p.s10.local_x][p.s10.local_y];
                    let x4 = stamps[p.s00.stamp][p.s00.local_x][p.s00.local_y];
                    let u0 = smoothstep(p.frac_x as f32 / stamp_size as f32);
                    let u1 = smoothstep(p.frac_y as f32 / stamp_size as f32);
                    key_of(x4.lerp(x3, u0).lerp(x2.lerp(x1, u0), u1))
                })
                .collect()
        })
        .collect();
    let mut res = threshold_grid(&keys, key_of(lower_range), key_of(upper_range));
    cut_noise_to_dimensions(&mut res, world_size);
    res
}

#[test]
fn end_to_end_grid_is_square_and_reproducible() {
    let first = generate("test-seed", 8, 4, 32, -0.1, 0.1);
    assert_eq!(first.len(), 32);
    for row in &first {
        assert_eq!(row.len(), 32);
    }
    let second = generate("test-seed", 8, 4, 32, -0.1, 0.1);
    assert_eq!(first, second);
    let other = generate("test-seed-2", 8, 4, 32, -0.1, 0.1);
    assert_ne!(first, other);
}

#[test]
fn single_stamp_tiles_one_pattern() {
    let grid = generate("test-seed", 1, 4, 32, -0.1, 0.1);
    for i in 0..32 {
        for j in 0..32 {
            if i + 4 < 32 {
                assert_eq!(grid[i][j], grid[i + 4][j]);
            }
            if j + 4 < 32 {
                assert_eq!(grid[i][j], grid[i][j + 4]);
            }
        }
    }
}

#[test]
fn horizontal_direction_stamp_is_symmetric_across_the_midline() {
    let size = 8;
    let field = stamp_field(&Vector2::new(1.0, 0.0), size);
    for x in 0..size {
        for y in 0..size {
            assert_eq!(field[x][y].to_bits(), field[x][size - 1 - y].to_bits());
        }
    }
}

#[test]
fn smoothing_stays_strictly_inside_the_unit_interval() {
    // Over the fractions the sampler feeds it (the unit interval), the
    // sigmoid never reaches either endpoint, unlike a clamped smoothstep.
    for i in 0..=100 {
        let t = i as f32 / 100.0;
        let s = smoothstep(t);
        assert!(s > 0.0 && s < 1.0, "smoothstep({}) = {}", t, s);
    }
}
