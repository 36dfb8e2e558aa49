use edge_detect::gradient::sobel_filter;
use edge_detect::hysteresis::hysteresis;
use edge_detect::luma::bytes_to_grayscale;
use edge_detect::smooth::gaussian_blur;
use edge_detect::smooth::GAUSS_SCALE;
use edge_detect::smooth::GAUSS_W0;
use edge_detect::smooth::GAUSS_W1;
use edge_detect::smooth::GAUSS_W2;
use edge_detect::suppress::nonmax_suppress;
use edge_detect::threshold::double_threshold;

#[test]
fn grayscale_stride1_is_identity() {
    let src = vec![5u8, 0, 255, 17, 128];
    assert_eq!(bytes_to_grayscale(&src, 1), src);
    let empty: Vec<u8> = vec![];
    assert_eq!(bytes_to_grayscale(&empty, 1), empty);
    let one = vec![42u8];
    assert_eq!(bytes_to_grayscale(&one, 1), one);
}

#[test]
fn grayscale_stride3_weighted() {
    // (299*10 + 587*20 + 144*30) / 1000 = 19
    let src = vec![10u8, 20, 30];
    assert_eq!(bytes_to_grayscale(&src, 3), vec![19u8]);
    // the weights sum to 1030 thousandths, so full white saturates
    let white = vec![255u8, 255, 255];
    assert_eq!(bytes_to_grayscale(&white, 3), vec![255u8]);
}

#[test]
fn grayscale_stride4_length_and_alpha() {
    let src = vec![10u8, 20, 30, 40, 50, 60, 70, 80];
    let out = bytes_to_grayscale(&src, 4);
    assert_eq!(out.len(), src.len() / 4);
    assert_eq!(out, vec![19u8, 60]);
    // same color bytes, different alpha bytes: same output
    let src2 = vec![10u8, 20, 30, 99, 50, 60, 70, 0];
    assert_eq!(bytes_to_grayscale(&src2, 4), out);
}

#[test]
fn kernel_weights_sum_to_scale() {
    assert_eq!(GAUSS_W0 + 2 * GAUSS_W1 + 2 * GAUSS_W2, GAUSS_SCALE);
}

#[test]
fn kernel_weights_match_gaussian_density() {
    // radius 2, sigma = max(2 / 2, 1.0) = 1.0
    let sigma: f64 = 1.0;
    let raw: Vec<f64> = (-2i32..=2)
        .map(|x| {
            let e = -((x * x) as f64) / (2.0 * sigma * sigma);
            e.exp() / (2.0 * std::f64::consts::PI * sigma * sigma)
        })
        .collect();
    let sum: f64 = raw.iter().sum();
    let norm: Vec<f64> = raw.iter().map(|v| v / sum).collect();
    assert!((norm.iter().sum::<f64>() - 1.0).abs() < 1e-12);
    let fixed = [GAUSS_W2, GAUSS_W1, GAUSS_W0, GAUSS_W1, GAUSS_W2];
    for (f, n) in fixed.iter().zip(norm.iter()) {
        assert!((*f as f64 / GAUSS_SCALE as f64 - n).abs() < 1e-6);
    }
}

#[test]
fn blur_exact_small() {
    assert_eq!(gaussian_blur(&vec![100u8, 200], 1), vec![61u8, 63]);
}

#[test]
fn blur_uniform_keeps_interior() {
    let src = vec![100u8; 49];
    let out = gaussian_blur(&src, 7);
    assert_eq!(out.len(), 49);
    // pixels far enough from the buffer ends that no tap is skipped
    for px in 16..=32 {
        assert_eq!(out[px], 100);
    }
    // skipped boundary taps darken the ends
    assert!(out[0] < 100);
    assert!(out[48] < 100);
}

#[test]
fn blur_never_brightens_past_max() {
    let src = vec![0u8, 255, 13, 200, 99, 255, 0, 7, 31, 250, 128, 64];
    let max = *src.iter().max().unwrap();
    for v in gaussian_blur(&src, 4) {
        assert!(v <= max);
    }
}

#[test]
fn sobel_exact_small() {
    // two samples, one row: the last sample keeps a horizontal response,
    // every vertical response is one-sided
    assert_eq!(sobel_filter(&vec![10u8, 20], 1), vec![120u8, 90, 117, 45]);
}

#[test]
fn sobel_uniform_zero_magnitude_interior() {
    let src = vec![200u8; 25];
    let out = sobel_filter(&src, 5);
    assert_eq!(out.len(), 50);
    // rows with both vertical neighbors in bounds have zero magnitude, and
    // a zero gradient quantizes to the zero-degree band
    for py in 5..20 {
        assert_eq!(out[2 * py], 0, "pixel {}", py);
        assert_eq!(out[2 * py + 1], 0, "pixel {}", py);
    }
    // the one-sided vertical difference survives on the first and last rows
    assert_eq!(out[0], 255);
    assert_eq!(out[1], 90);
    assert_eq!(out[48], 255);
    assert_eq!(out[49], 90);
}

#[test]
fn suppress_single_peak() {
    // 3x3 magnitudes falling away from the center peak, directions chosen
    // so every off-peak pixel compares against a strictly greater neighbor
    let mags = [5u8, 10, 5, 20, 100, 20, 5, 10, 5];
    let dirs = [135u8, 90, 45, 0, 0, 0, 45, 90, 135];
    let mut g = Vec::new();
    for k in 0..9 {
        g.push(mags[k]);
        g.push(dirs[k]);
    }
    let out = nonmax_suppress(&g, 3);
    assert_eq!(out, vec![0u8, 0, 0, 0, 100, 0, 0, 0, 0]);
}

#[test]
fn suppress_out_of_bounds_neighbors_do_not_win() {
    // a single pixel: both compared neighbors fall outside the buffer and
    // are skipped, so the pixel keeps its magnitude
    let g = vec![40u8, 0];
    assert_eq!(nonmax_suppress(&g, 1), vec![40u8]);
}

#[test]
fn threshold_three_bands() {
    // max = 255, high = 178, low = 127; 128 sits between the cutoffs
    assert_eq!(double_threshold(&vec![0u8, 128, 255]), vec![0u8, 25, 255]);
}

#[test]
fn threshold_cutoff_boundaries() {
    // max = 200, high = 140, low = 100: at-low keeps weak, at-high is strong
    let out = double_threshold(&vec![200u8, 100, 99, 140, 139]);
    assert_eq!(out, vec![255u8, 25, 0, 255, 25]);
}

#[test]
fn threshold_all_zero_is_all_strong() {
    assert_eq!(double_threshold(&vec![0u8, 0, 0, 0]), vec![255u8; 4]);
}

#[test]
fn hysteresis_promotes_weak_with_strong_neighbor_anywhere() {
    // 3x3 grid, weak center: a strong pixel at any of the eight positions
    // promotes the center
    for pos in 0..9 {
        if pos == 4 {
            continue;
        }
        let mut buf = vec![0u8; 9];
        buf[4] = 25;
        buf[pos] = 255;
        let out = hysteresis(buf, 3);
        assert_eq!(out[4], 255, "strong neighbor at {}", pos);
    }
}

#[test]
fn hysteresis_demotes_weak_without_strong_neighbor() {
    let mut buf = vec![0u8; 9];
    buf[4] = 25;
    assert_eq!(hysteresis(buf, 3), vec![0u8; 9]);
}

#[test]
fn hysteresis_weak_chain_not_promoted() {
    // weak pixels with only weak neighbors and no strong pixel anywhere,
    // even transitively, are all demoted
    assert_eq!(hysteresis(vec![25u8, 25, 25, 0, 0], 5), vec![0u8; 5]);
}

#[test]
fn hysteresis_scan_order_cascades_from_strong() {
    // the pass mutates in place in index order, so a pixel promoted by a
    // strong neighbor promotes the next one in the same pass
    assert_eq!(hysteresis(vec![255u8, 25, 25], 3), vec![255u8, 255, 255]);
}

#[test]
fn hysteresis_isolated_weak_pixel_keeps_value() {
    // every neighbor offset falls outside the buffer: nothing is written
    assert_eq!(hysteresis(vec![25u8], 5), vec![25u8]);
}
