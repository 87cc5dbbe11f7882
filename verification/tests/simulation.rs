use rd::f32range::F32Range;
use rd::{Cell, Params, Stencil, System};

fn enc(v: f32) -> u32 {
    v.to_bits()
}

fn dec(c: u32) -> f32 {
    f32::from_bits(c)
}

/// The Gray–Scott forward-Euler update rule on hardware floats, decoding the
/// parameters and the neighborhood the library hands over.
fn gray_scott(p: Params, st: Stencil) -> Cell {
    let f = dec(p.feed_rate);
    let k = dec(p.kill_rate);
    let da = dec(p.diffusion_a);
    let db = dec(p.diffusion_b);
    let dt = dec(p.dt);
    let cells = [
        st.top_left,
        st.top,
        st.top_right,
        st.left,
        st.center,
        st.right,
        st.bottom_left,
        st.bottom,
        st.bottom_right,
    ];
    let kernel: [f32; 9] = [0.05, 0.20, 0.05, 0.20, -1.00, 0.20, 0.05, 0.20, 0.05];
    let mut na = 0.0f32;
    let mut nb = 0.0f32;
    for i in 0..9 {
        na += kernel[i] * dec(cells[i].0);
        nb += kernel[i] * dec(cells[i].1);
    }
    let a = dec(st.center.0);
    let b = dec(st.center.1);
    let a2 = a + dt * (da * na - a * b.powi(2) + f * (1.0 - a));
    let b2 = b + dt * (db * nb + a * b.powi(2) - (k + f) * b);
    (enc(a2), enc(b2))
}

/// The normalization the renderer applies: 0 at `low`, 1 at `high`.
fn normalize(r: F32Range, v: f32) -> f32 {
    (v - dec(r.low)) / (dec(r.high) - dec(r.low))
}

#[test]
fn fresh_grid_is_inert() {
    let s = System::new(4, 3);
    assert_eq!(s.width(), 4);
    assert_eq!(s.height(), 3);
    for y in 0..3 {
        for x in 0..4 {
            let (a, b) = s.get((x, y));
            assert_eq!(dec(a), 1.0);
            assert_eq!(dec(b), 0.0);
        }
    }
    let r = s.b_range();
    assert_eq!(dec(r.low), 0.0);
    assert_eq!(dec(r.high), 0.0);
}

#[test]
fn fresh_zero_sized_grid_has_empty_range() {
    let s = System::new(0, 5);
    let r = s.b_range();
    assert_eq!(dec(r.low), f32::INFINITY);
    assert_eq!(dec(r.high), f32::NEG_INFINITY);
}

#[test]
fn default_parameters_and_kernel() {
    let s = System::new(2, 2);
    assert_eq!(dec(s.feed_rate), 0.055);
    assert_eq!(dec(s.kill_rate), 0.062);
    assert_eq!(dec(s.diffusion_rates.0), 1.0);
    assert_eq!(dec(s.diffusion_rates.1), 0.5);
    let weights: Vec<f32> = s.kernel.iter().map(|&c| dec(c)).collect();
    assert_eq!(weights, vec![0.05, 0.20, 0.05, 0.20, -1.00, 0.20, 0.05, 0.20, 0.05]);
    assert!(weights.iter().sum::<f32>().abs() < 1e-6);
}

#[test]
fn set_then_get_round_trips() {
    let mut s = System::new(5, 4);
    s.set((2, 1), (enc(0.25), enc(0.75)));
    let (a, b) = s.get((2, 1));
    assert_eq!(dec(a), 0.25);
    assert_eq!(dec(b), 0.75);
    let (a0, b0) = s.get((1, 2));
    assert_eq!(dec(a0), 1.0);
    assert_eq!(dec(b0), 0.0);
}

#[test]
fn update_metadata_tracks_b_extremes() {
    let mut s = System::new(3, 3);
    s.set((0, 0), (enc(1.0), enc(0.5)));
    s.set((2, 1), (enc(1.0), enc(-0.25)));
    s.set((1, 2), (enc(1.0), enc(2.0)));
    s.update_metadata();
    let r = s.b_range();
    assert_eq!(dec(r.low), -0.25);
    assert_eq!(dec(r.high), 2.0);
}

#[test]
fn update_metadata_is_idempotent() {
    let mut s = System::new(3, 2);
    s.set((1, 1), (enc(0.9), enc(0.3)));
    s.set((2, 0), (enc(0.8), enc(0.7)));
    s.update_metadata();
    let first = s.b_range();
    s.update_metadata();
    let second = s.b_range();
    assert_eq!(first, second);
}

#[test]
fn set_leaves_range_stale_until_update() {
    let mut s = System::new(2, 2);
    s.set((0, 0), (enc(1.0), enc(9.0)));
    let stale = s.b_range();
    assert_eq!(dec(stale.low), 0.0);
    assert_eq!(dec(stale.high), 0.0);
    s.update_metadata();
    assert_eq!(dec(s.b_range().high), 9.0);
}

#[test]
fn evolve_keeps_uniform_inert_grid() {
    let mut s = System::new(4, 4);
    s.update_metadata();
    s.evolve(enc(1.0), gray_scott);
    for y in 0..4 {
        for x in 0..4 {
            let (a, b) = s.get((x, y));
            assert!((dec(a) - 1.0).abs() < 1e-5, "A drifted at ({x},{y}): {}", dec(a));
            assert_eq!(dec(b), 0.0, "B appeared at ({x},{y})");
        }
    }
}

#[test]
fn evolve_wraps_toroidally() {
    let mut s = System::new(3, 3);
    s.set((0, 0), (enc(1.0), enc(1.0)));
    s.update_metadata();
    s.evolve(enc(1.0), gray_scott);
    // The seeded cell at the corner diffuses across the wrapped edges: the
    // diagonal wrap neighbor and the two adjacent cells all pick up B.
    assert!(dec(s.get((2, 2)).1) > 0.0);
    assert!(dec(s.get((1, 0)).1) > 0.0);
    assert!(dec(s.get((0, 1)).1) > 0.0);
    // A clamping (non-wrapping) boundary would have left the far corner dry:
    // the contribution comes through the corner kernel weight exactly.
    let expected = 0.5 * 0.05 * 1.0;
    assert!((dec(s.get((2, 2)).1) - expected).abs() < 1e-6);
}

#[test]
fn evolve_matches_closed_form_on_pre_step_values() {
    let mut s = System::new(3, 3);
    s.set((1, 1), (enc(0.6), enc(0.9)));
    s.set((0, 2), (enc(0.3), enc(0.4)));
    s.update_metadata();

    let pre: Vec<Cell> = (0..9).map(|i| s.get((i % 3, i / 3))).collect();
    let params = Params {
        feed_rate: s.feed_rate,
        kill_rate: s.kill_rate,
        diffusion_a: s.diffusion_rates.0,
        diffusion_b: s.diffusion_rates.1,
        dt: enc(1.0),
    };

    s.evolve(enc(1.0), gray_scott);

    for y in 0..3usize {
        for x in 0..3usize {
            let lx = (x + 2) % 3;
            let rx = (x + 1) % 3;
            let ty = (y + 2) % 3;
            let by = (y + 1) % 3;
            let st = Stencil {
                top_left: pre[ty * 3 + lx],
                top: pre[ty * 3 + x],
                top_right: pre[ty * 3 + rx],
                left: pre[y * 3 + lx],
                center: pre[y * 3 + x],
                right: pre[y * 3 + rx],
                bottom_left: pre[by * 3 + lx],
                bottom: pre[by * 3 + x],
                bottom_right: pre[by * 3 + rx],
            };
            let expected = gray_scott(params, st);
            // Bit-for-bit: no cell's update may have observed a post-step
            // value of any other cell.
            assert_eq!(s.get((x, y)), expected, "mismatch at ({x},{y})");
        }
    }
}

#[test]
fn evolve_swaps_buffers_and_refreshes_range() {
    let mut s = System::new(3, 3);
    s.set((1, 1), (enc(1.0), enc(1.0)));
    s.update_metadata();
    let pre: Vec<Cell> = (0..9).map(|i| s.get((i % 3, i / 3))).collect();
    s.evolve(enc(1.0), gray_scott);
    // The former current buffer is now the scratch buffer.
    assert_eq!(s.world_buffer, pre);
    // The cached range is the min/max of the new generation's B channel.
    let mut low = f32::INFINITY;
    let mut high = f32::NEG_INFINITY;
    for i in 0..9 {
        let b = dec(s.get((i % 3, i / 3)).1);
        low = low.min(b);
        high = high.max(b);
    }
    assert_eq!(dec(s.b_range().low), low);
    assert_eq!(dec(s.b_range().high), high);
}

#[test]
fn cells_enumerates_row_major() {
    let mut s = System::new(3, 2);
    for y in 0..2 {
        for x in 0..3 {
            s.set((x, y), (enc((y * 3 + x) as f32), enc(0.0)));
        }
    }
    let all = s.cells();
    assert_eq!(all.len(), 6);
    for (i, ((x, y), c)) in all.iter().enumerate() {
        assert_eq!((*x, *y), (i % 3, i / 3));
        assert_eq!(dec(c.0), i as f32);
    }
}

#[test]
fn range_tracker_finds_extremes() {
    let mut r = F32Range::empty();
    for v in [3.5f32, -2.0, 7.25, 0.0, -2.0] {
        r.expand(enc(v));
    }
    assert_eq!(dec(r.low), -2.0);
    assert_eq!(dec(r.high), 7.25);
}

#[test]
fn range_tracker_single_sample() {
    let mut r = F32Range::empty();
    r.expand(enc(4.5));
    assert_eq!(dec(r.low), 4.5);
    assert_eq!(dec(r.high), 4.5);
}

#[test]
fn range_tracker_ignores_nan() {
    // As with the running f32::min/f32::max of the original floats, a NaN
    // sample leaves the tracker unchanged and the bounds are never NaN.
    let mut r = F32Range::zero();
    r.expand(enc(f32::NAN));
    assert_eq!(dec(r.low), 0.0);
    assert_eq!(dec(r.high), 0.0);

    let mut r = F32Range::empty();
    for v in [3.5f32, f32::NAN, -2.0, -f32::NAN] {
        r.expand(enc(v));
    }
    assert_eq!(dec(r.low), -2.0);
    assert_eq!(dec(r.high), 3.5);
}

#[test]
fn range_tracker_keeps_infinities() {
    // Infinities are ordinary samples, as they are for f32::min/f32::max.
    let mut r = F32Range::empty();
    for v in [1.0f32, f32::NEG_INFINITY, 2.0, f32::INFINITY] {
        r.expand(enc(v));
    }
    assert_eq!(dec(r.low), f32::NEG_INFINITY);
    assert_eq!(dec(r.high), f32::INFINITY);
}

#[test]
fn range_tracker_zero_and_empty() {
    let z = F32Range::zero();
    assert_eq!(dec(z.low), 0.0);
    assert_eq!(dec(z.high), 0.0);
    let e = F32Range::empty();
    assert_eq!(dec(e.low), f32::INFINITY);
    assert_eq!(dec(e.high), f32::NEG_INFINITY);
}

#[test]
fn normalize_round_trips_bounds() {
    let mut r = F32Range::empty();
    for v in [0.125f32, 3.0, -1.5, 2.25] {
        r.expand(enc(v));
    }
    assert_eq!(normalize(r, dec(r.low)), 0.0);
    assert_eq!(normalize(r, dec(r.high)), 1.0);
    let mid = normalize(r, 0.75);
    assert_eq!(mid, 0.5);
}
