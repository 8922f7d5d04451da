use tcp_optimiser::order::sort_dedup;

#[test]
fn sort_dedup_orders_and_removes_repeats() {
    let input = vec!["wlan0".to_string(), "rmnet_data0".to_string(), "wlan0".to_string(), "eth0".to_string()];
    assert_eq!(sort_dedup(&input), vec!["eth0".to_string(), "rmnet_data0".to_string(), "wlan0".to_string()]);
    assert!(sort_dedup(&Vec::new()).is_empty());
}
