use edge_detect::gradient::sobel_filter;
use edge_detect::pipeline::detect_edges;
use edge_detect::suppress::gradient_thresholding;
use edge_detect::suppress::nonmax_suppress;

#[test]
fn gradient_thresholding_matches_composed_stages() {
    let src = vec![10u8, 40, 90, 160, 90, 40, 10, 0, 10];
    let composed = nonmax_suppress(&sobel_filter(&src, 3), 3);
    assert_eq!(gradient_thresholding(&src, 3), composed);
}

#[test]
fn pipeline_step_image() {
    // a 5x5 single-channel buffer with a sharp vertical step. With the
    // horizontal response zeroed everywhere before the last sample by the
    // accumulated differencing phase, the gradient the detector sees is the
    // vertical one, which survives only where the smoothed rows differ: the
    // boundary rows stay strong and the middle row is suppressed.
    let mut img = Vec::new();
    for _ in 0..5 {
        img.extend_from_slice(&[0u8, 0, 255, 255, 255]);
    }
    let out = detect_edges(&img, 5, 1);
    let mut expected = Vec::new();
    expected.extend_from_slice(&[255u8; 10]);
    expected.extend_from_slice(&[0u8; 5]);
    expected.extend_from_slice(&[255u8; 10]);
    assert_eq!(out, expected);
}

#[test]
fn pipeline_four_channel_input() {
    let img = vec![
        10u8, 20, 30, 40, 50, 60, 70, 80, 90, 100, 110, 120, 130, 140, 150, 160,
    ];
    let out = detect_edges(&img, 2, 4);
    assert_eq!(out.len(), 4);
    assert_eq!(out, vec![255u8, 255, 0, 255]);
}

#[test]
fn pipeline_output_is_settled_where_neighbored() {
    // every output byte of a multi-pixel image is either a confirmed edge
    // or a confirmed non-edge once hysteresis has run
    let src: Vec<u8> = (0..64u32).map(|i| (i * 4) as u8).collect();
    let out = detect_edges(&src, 8, 1);
    assert_eq!(out.len(), 64);
    for v in out {
        assert!(v == 0 || v == 255);
    }
}
