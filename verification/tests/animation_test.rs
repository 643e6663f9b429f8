fn ease_out_cubic(t: f32) -> f32 {
    1.0 - (1.0 - t).powi(3)
}

#[test]
fn ease_out_cubic_is_decelerating() {
    assert!((ease_out_cubic(0.0) - 0.0).abs() < 1e-6);
    assert!((ease_out_cubic(1.0) - 1.0).abs() < 1e-6);
    let mid = ease_out_cubic(0.5);
    assert!(mid > 0.5, "ease-out is past the midpoint at t = 0.5 (got {mid})");
}
