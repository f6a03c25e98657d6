use rust_labs::bezier::{bezier_weights, Const, SingConst};

#[test]
fn grid_has_sixty_six_points_summing_to_ten() {
    let c = Const::new();
    let rows = c.get_barycentric();
    assert_eq!(rows.len(), 66);
    for r in rows {
        assert_eq!(r.0 as u32 + r.1 as u32 + r.2 as u32, 10);
    }
    assert_eq!(rows[0], (0, 0, 10));
    assert_eq!(rows[1], (0, 1, 9));
    assert_eq!(rows[10], (0, 10, 0));
    assert_eq!(rows[11], (1, 0, 9));
    assert_eq!(rows[65], (10, 0, 0));
}

#[test]
fn grid_is_ordered_without_repeats() {
    let c = Const::new();
    let rows = c.get_barycentric();
    for w in rows.windows(2) {
        assert!((w[0].0, w[0].1) < (w[1].0, w[1].1));
    }
}

#[test]
fn singleton_is_built_once() {
    let mut s = SingConst::new();
    assert!(s.singleton.is_none());
    let first: Vec<(u8, u8, u8)> = s.get_instance().get_barycentric().clone();
    assert!(s.singleton.is_some());
    let second: Vec<(u8, u8, u8)> = s.get_instance().get_barycentric().clone();
    assert_eq!(first, second);
    assert_eq!(first, Const::new().get_barycentric().clone());
}

#[test]
fn weights_at_the_corners() {
    assert_eq!(bezier_weights(10, 0, 0), [1000, 0, 0, 0, 0, 0, 0, 0, 0, 0]);
    assert_eq!(bezier_weights(0, 10, 0), [0, 0, 0, 1000, 0, 0, 0, 0, 0, 0]);
    assert_eq!(bezier_weights(0, 0, 10), [0, 0, 0, 0, 0, 0, 0, 0, 0, 1000]);
}

#[test]
fn weights_at_an_inner_point() {
    // s = 0.2, t = 0.3, u = 0.5
    assert_eq!(bezier_weights(2, 3, 5), [8, 36, 54, 27, 60, 180, 135, 150, 225, 125]);
}

#[test]
fn weights_share_out_a_thousand_on_the_grid() {
    let c = Const::new();
    for r in c.get_barycentric() {
        let w = bezier_weights(r.0, r.1, r.2);
        assert_eq!(w.iter().sum::<u32>(), 1000);
    }
}

#[test]
fn weights_at_the_largest_coordinates() {
    let w = bezier_weights(255, 255, 255);
    assert_eq!(w[5], 6 * 255 * 255 * 255);
    assert_eq!(w.iter().map(|&x| x as u64).sum::<u64>(), 765u64 * 765 * 765);
}
