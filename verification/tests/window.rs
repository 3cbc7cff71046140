use quant_engine::window::{push_drop_oldest, push_keep_last};

#[test]
fn keep_last_trims_to_newest() {
    let mut buf: Vec<f64> = Vec::new();
    for i in 0..10 {
        push_keep_last(&mut buf, i as f64, 4, 4);
    }
    assert_eq!(buf, vec![6.0, 7.0, 8.0, 9.0]);
}

#[test]
fn keep_last_with_slack_trims_to_keep() {
    // grows up to twice the window, then falls back to one window
    let mut buf: Vec<u32> = Vec::new();
    for i in 0..6 {
        push_keep_last(&mut buf, i, 6, 3);
    }
    assert_eq!(buf, vec![0, 1, 2, 3, 4, 5]);
    push_keep_last(&mut buf, 6, 6, 3);
    assert_eq!(buf, vec![4, 5, 6]);
}

#[test]
fn drop_oldest_purges_a_block() {
    let mut buf: Vec<(f64, bool)> = Vec::new();
    for i in 0..12_000 {
        push_drop_oldest(&mut buf, (0.7, i % 3 != 0), 10_000, 5_000);
        assert!(buf.len() <= 10_000);
    }
    // 10_001 → 5_001 at the 10_001st push, then 1_999 more
    assert_eq!(buf.len(), 7_000);
}
